pub mod daemon;
