//! Typed model of a CFDI 4.0 electronic invoice, read from its XML text.
//!
//! `parse_cfdi` turns the text into a `Comprobante`; the accessors on it and
//! `DatosPrincipales` give a flat view of the fields most often needed.
pub mod decimal;
pub mod element;
pub mod model;
pub mod decode;
pub mod reader;
pub mod laws;

pub use decimal::{parse_decimal, Decimal};
pub use decode::{comprobante_from_element, CfdiError};
pub use element::{Element, XmlAttr};
pub use model::{
    Comprobante, Complemento, Concepto, Conceptos, DatosPrincipales, Emisor, Receptor,
    TimbreFiscalDigital,
};
pub use reader::{parse_cfdi, parse_element_tree};
