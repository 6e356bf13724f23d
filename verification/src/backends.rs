pub mod crtsh;
