pub mod api_keys;
