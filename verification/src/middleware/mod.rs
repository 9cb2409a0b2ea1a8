pub mod aws_sig_v4;
