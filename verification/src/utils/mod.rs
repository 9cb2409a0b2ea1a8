pub mod aws_sig_v4;
pub mod encoding;
pub mod filter;
pub mod number;
pub mod order;
pub mod split;
pub mod string;
pub mod text;
