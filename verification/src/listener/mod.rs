pub mod http_endpoint;
