//! A verified DynamoDB request/response codec: conversions between JSON values and
//! attribute values, placeholder-based expression building, pagination cursors and the
//! per-operation request planning and response shaping of a table browser.
pub mod numeric;
pub mod value;
pub mod binary;
pub mod dynamo;
pub mod dynamo_client;
pub mod dynamodb_utils;
pub mod expression;
pub mod fetch_client;
pub mod json_utils;
pub mod laws;
pub mod openai_client;
