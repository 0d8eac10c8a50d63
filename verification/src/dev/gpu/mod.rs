pub mod drm;
