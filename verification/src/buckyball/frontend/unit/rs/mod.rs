pub mod bundles;
