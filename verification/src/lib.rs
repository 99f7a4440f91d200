pub mod machine;
pub mod op_codes;
pub mod parser;
pub mod timers;
