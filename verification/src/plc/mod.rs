pub mod mock_data;
pub mod parser;
pub mod poller;
