pub mod locales;
