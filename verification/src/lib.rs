//! Decoding, editing and re-encoding of the 44-digit municipal tax-payment
//! barcode, with every rule stated as a contract and proved.

pub mod calendar;
pub mod decoder;
pub mod digits;
pub mod editor;
pub mod fields;
pub mod laws;
pub mod layout;
pub mod session;
pub mod summary;
pub mod text;

pub use summary::lista_cod;
pub use text::dividir_string;
