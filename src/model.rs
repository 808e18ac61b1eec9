//! The invoice entities, their views, and the flat summary built from them.
use vstd::prelude::*;
use crate::decimal::Decimal;
use crate::element::opt_view;

verus! {

/// The issuer of the invoice (`Emisor`).
#[derive(Clone, Debug, PartialEq)]
pub struct Emisor {
    pub rfc: String,
    pub nombre: String,
    pub regimen_fiscal: String,
}

pub struct EmisorView {
    pub rfc: Seq<char>,
    pub nombre: Seq<char>,
    pub regimen_fiscal: Seq<char>,
}

impl View for Emisor {
    type V = EmisorView;

    open spec fn view(&self) -> EmisorView {
        EmisorView { rfc: self.rfc@, nombre: self.nombre@, regimen_fiscal: self.regimen_fiscal@ }
    }
}

/// The recipient of the invoice (`Receptor`).
#[derive(Clone, Debug, PartialEq)]
pub struct Receptor {
    pub rfc: String,
    pub nombre: String,
    pub regimen_fiscal: String,
    pub uso_cfdi: String,
}

pub struct ReceptorView {
    pub rfc: Seq<char>,
    pub nombre: Seq<char>,
    pub regimen_fiscal: Seq<char>,
    pub uso_cfdi: Seq<char>,
}

impl View for Receptor {
    type V = ReceptorView;

    open spec fn view(&self) -> ReceptorView {
        ReceptorView {
            rfc: self.rfc@,
            nombre: self.nombre@,
            regimen_fiscal: self.regimen_fiscal@,
            uso_cfdi: self.uso_cfdi@,
        }
    }
}

/// One line item of the invoice (`Concepto`). The unit value keeps its text
/// as written.
#[derive(Clone, Debug, PartialEq)]
pub struct Concepto {
    pub clave_product: String,
    pub cantidad: Decimal,
    pub clave_unidad: String,
    pub unidad: Option<String>,
    pub descripcion: String,
    pub valor_unitario: String,
    pub importe: Decimal,
    pub descuento: Option<Decimal>,
}

pub struct ConceptoView {
    pub clave_product: Seq<char>,
    pub cantidad: Decimal,
    pub clave_unidad: Seq<char>,
    pub unidad: Option<Seq<char>>,
    pub descripcion: Seq<char>,
    pub valor_unitario: Seq<char>,
    pub importe: Decimal,
    pub descuento: Option<Decimal>,
}

impl View for Concepto {
    type V = ConceptoView;

    open spec fn view(&self) -> ConceptoView {
        ConceptoView {
            clave_product: self.clave_product@,
            cantidad: self.cantidad,
            clave_unidad: self.clave_unidad@,
            unidad: opt_view(self.unidad),
            descripcion: self.descripcion@,
            valor_unitario: self.valor_unitario@,
            importe: self.importe,
            descuento: self.descuento,
        }
    }
}

pub open spec fn conceptos_view(v: Seq<Concepto>) -> Seq<ConceptoView> {
    v.map_values(|c: Concepto| c@)
}

fn copy_text(s: &String) -> (r: String)
    ensures
        r@ == s@,
{
    s.clone()
}

fn copy_opt_text(s: &Option<String>) -> (r: Option<String>)
    ensures
        opt_view(r) == opt_view(*s),
{
    match s {
        Some(t) => Some(t.clone()),
        None => None,
    }
}

impl Concepto {
    /// A copy of this line item with the same contents.
    pub fn duplicate(&self) -> (r: Concepto)
        ensures
            r@ == self@,
    {
        Concepto {
            clave_product: copy_text(&self.clave_product),
            cantidad: self.cantidad,
            clave_unidad: copy_text(&self.clave_unidad),
            unidad: copy_opt_text(&self.unidad),
            descripcion: copy_text(&self.descripcion),
            valor_unitario: copy_text(&self.valor_unitario),
            importe: self.importe,
            descuento: self.descuento,
        }
    }
}

/// Copies a sequence of line items, keeping their order.
pub fn copy_conceptos(v: &Vec<Concepto>) -> (r: Vec<Concepto>)
    ensures
        conceptos_view(r@) == conceptos_view(v@),
{
    let mut out: Vec<Concepto> = Vec::new();
    let mut i: usize = 0;
    while i < v.len()
        invariant
            i <= v@.len(),
            out@.len() == i,
            forall|j: int| 0 <= j < i ==> (#[trigger] out@[j])@ == v@[j]@,
        decreases v@.len() - i,
    {
        out.push(v[i].duplicate());
        i = i + 1;
    }
    proof {
        assert(conceptos_view(out@) =~= conceptos_view(v@));
    }
    out
}

/// The list of line items (`Conceptos`), in document order.
#[derive(Clone, Debug, PartialEq)]
pub struct Conceptos {
    pub concepto: Vec<Concepto>,
}

/// The stamp with which the tax authority certified the invoice
/// (`TimbreFiscalDigital`).
#[derive(Clone, Debug, PartialEq)]
pub struct TimbreFiscalDigital {
    pub version: String,
    pub uuid: String,
    pub fecha_timbrado: String,
    pub no_certificado_sat: String,
}

pub struct TimbreView {
    pub version: Seq<char>,
    pub uuid: Seq<char>,
    pub fecha_timbrado: Seq<char>,
    pub no_certificado_sat: Seq<char>,
}

impl View for TimbreFiscalDigital {
    type V = TimbreView;

    open spec fn view(&self) -> TimbreView {
        TimbreView {
            version: self.version@,
            uuid: self.uuid@,
            fecha_timbrado: self.fecha_timbrado@,
            no_certificado_sat: self.no_certificado_sat@,
        }
    }
}

/// The supplement of the invoice (`Complemento`), which holds the stamp
/// once the invoice is certified.
#[derive(Clone, Debug, PartialEq)]
pub struct Complemento {
    pub timbre_fiscal_digital: Option<TimbreFiscalDigital>,
}

pub open spec fn timbre_view(t: Option<TimbreFiscalDigital>) -> Option<TimbreView> {
    match t {
        Some(t) => Some(t@),
        None => None,
    }
}

pub open spec fn complemento_view(c: Option<Complemento>) -> Option<Option<TimbreView>> {
    match c {
        Some(c) => Some(timbre_view(c.timbre_fiscal_digital)),
        None => None,
    }
}

/// The invoice (`Comprobante`), root of the document.
#[derive(Clone, Debug, PartialEq)]
pub struct Comprobante {
    pub total: Decimal,
    pub subtotal: Decimal,
    pub fecha: String,
    pub forma_pago: Option<String>,
    pub descuento: Option<String>,
    pub tipo_comprobante: String,
    pub emisor: Emisor,
    pub receptor: Receptor,
    pub conceptos: Conceptos,
    pub complemento: Option<Complemento>,
}

pub struct ComprobanteView {
    pub total: Decimal,
    pub subtotal: Decimal,
    pub fecha: Seq<char>,
    pub forma_pago: Option<Seq<char>>,
    pub descuento: Option<Seq<char>>,
    pub tipo_comprobante: Seq<char>,
    pub emisor: EmisorView,
    pub receptor: ReceptorView,
    pub conceptos: Seq<ConceptoView>,
    pub complemento: Option<Option<TimbreView>>,
}

impl View for Comprobante {
    type V = ComprobanteView;

    open spec fn view(&self) -> ComprobanteView {
        ComprobanteView {
            total: self.total,
            subtotal: self.subtotal,
            fecha: self.fecha@,
            forma_pago: opt_view(self.forma_pago),
            descuento: opt_view(self.descuento),
            tipo_comprobante: self.tipo_comprobante@,
            emisor: self.emisor@,
            receptor: self.receptor@,
            conceptos: conceptos_view(self.conceptos.concepto@),
            complemento: complemento_view(self.complemento),
        }
    }
}

/// The stamp of a document view, where it has both a supplement and a stamp.
pub open spec fn stamp_of(c: ComprobanteView) -> Option<TimbreView> {
    match c.complemento {
        Some(Some(t)) => Some(t),
        _ => None,
    }
}

pub open spec fn uuid_of(c: ComprobanteView) -> Option<Seq<char>> {
    match stamp_of(c) {
        Some(t) => Some(t.uuid),
        None => None,
    }
}

pub open spec fn fecha_timbrado_of(c: ComprobanteView) -> Option<Seq<char>> {
    match stamp_of(c) {
        Some(t) => Some(t.fecha_timbrado),
        None => None,
    }
}

/// Flat summary of the fields of an invoice most often needed.
#[derive(Clone, Debug, PartialEq)]
pub struct DatosPrincipales {
    pub total: Decimal,
    pub subtotal: Decimal,
    pub fecha: String,
    pub emisor_nombre: String,
    pub emisor_rfc: String,
    pub receptor_nombre: String,
    pub receptor_rfc: String,
    pub uuid: Option<String>,
    pub fecha_timbrado: Option<String>,
    pub conceptos: Vec<Concepto>,
}

pub struct DatosView {
    pub total: Decimal,
    pub subtotal: Decimal,
    pub fecha: Seq<char>,
    pub emisor_nombre: Seq<char>,
    pub emisor_rfc: Seq<char>,
    pub receptor_nombre: Seq<char>,
    pub receptor_rfc: Seq<char>,
    pub uuid: Option<Seq<char>>,
    pub fecha_timbrado: Option<Seq<char>>,
    pub conceptos: Seq<ConceptoView>,
}

impl View for DatosPrincipales {
    type V = DatosView;

    open spec fn view(&self) -> DatosView {
        DatosView {
            total: self.total,
            subtotal: self.subtotal,
            fecha: self.fecha@,
            emisor_nombre: self.emisor_nombre@,
            emisor_rfc: self.emisor_rfc@,
            receptor_nombre: self.receptor_nombre@,
            receptor_rfc: self.receptor_rfc@,
            uuid: opt_view(self.uuid),
            fecha_timbrado: opt_view(self.fecha_timbrado),
            conceptos: conceptos_view(self.conceptos@),
        }
    }
}

/// The summary of a document view: its fields copied as they are, and the
/// stamp's UUID and date where the document is stamped.
pub open spec fn datos_of(c: ComprobanteView) -> DatosView {
    DatosView {
        total: c.total,
        subtotal: c.subtotal,
        fecha: c.fecha,
        emisor_nombre: c.emisor.nombre,
        emisor_rfc: c.emisor.rfc,
        receptor_nombre: c.receptor.nombre,
        receptor_rfc: c.receptor.rfc,
        uuid: uuid_of(c),
        fecha_timbrado: fecha_timbrado_of(c),
        conceptos: c.conceptos,
    }
}

impl Comprobante {
    /// A copy of the line items, in document order.
    pub fn get_conceptos(&self) -> (r: Vec<Concepto>)
        ensures
            conceptos_view(r@) == self@.conceptos,
    {
        copy_conceptos(&self.conceptos.concepto)
    }

    /// The stamp's UUID, where the invoice has a supplement holding a stamp.
    pub fn get_uuid(&self) -> (r: Option<String>)
        ensures
            opt_view(r) == uuid_of(self@),
    {
        match &self.complemento {
            Some(c) => match &c.timbre_fiscal_digital {
                Some(t) => Some(t.uuid.clone()),
                None => None,
            },
            None => None,
        }
    }

    /// The stamp's date, where the invoice has a supplement holding a stamp.
    pub fn get_fecha_timbrado(&self) -> (r: Option<String>)
        ensures
            opt_view(r) == fecha_timbrado_of(self@),
    {
        match &self.complemento {
            Some(c) => match &c.timbre_fiscal_digital {
                Some(t) => Some(t.fecha_timbrado.clone()),
                None => None,
            },
            None => None,
        }
    }

    /// Builds the flat summary of this invoice.
    pub fn get_datos_principales(self) -> (r: DatosPrincipales)
        ensures
            r@ == datos_of(self@),
    {
        let uuid = self.get_uuid();
        let fecha_timbrado = self.get_fecha_timbrado();
        let conceptos = self.get_conceptos();
        DatosPrincipales {
            total: self.total,
            subtotal: self.subtotal,
            fecha: self.fecha,
            emisor_nombre: self.emisor.nombre,
            emisor_rfc: self.emisor.rfc,
            receptor_nombre: self.receptor.nombre,
            receptor_rfc: self.receptor.rfc,
            uuid,
            fecha_timbrado,
            conceptos,
        }
    }
}

} // verus!
