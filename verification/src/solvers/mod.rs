pub mod qr;
