//! The mapping from an element tree to the invoice entities: which element
//! and which attribute feeds each field, which are required, and which error
//! comes first where the tree does not fit.
use vstd::prelude::*;
use crate::decimal::{Decimal, decimal_of, parse_decimal};
use crate::element::{Element, ElementView, attr, child, find_attribute, find_child, views};
use crate::model::{conceptos_view, timbre_view, Comprobante, ComprobanteView, Complemento, Concepto, ConceptoView, Conceptos, Emisor, EmisorView, Receptor, ReceptorView, TimbreFiscalDigital, TimbreView};

verus! {

pub const COMPROBANTE: &'static str = "Comprobante";
pub const EMISOR: &'static str = "Emisor";
pub const RECEPTOR: &'static str = "Receptor";
pub const CONCEPTOS: &'static str = "Conceptos";
pub const CONCEPTO: &'static str = "Concepto";
pub const COMPLEMENTO: &'static str = "Complemento";
pub const TIMBRE: &'static str = "TimbreFiscalDigital";

pub const TOTAL: &'static str = "Total";
pub const SUBTOTAL: &'static str = "SubTotal";
pub const FECHA: &'static str = "Fecha";
pub const FORMA_PAGO: &'static str = "FormaPago";
pub const DESCUENTO: &'static str = "Descuento";
pub const TIPO_COMPROBANTE: &'static str = "TipoDeComprobante";
pub const RFC: &'static str = "Rfc";
pub const NOMBRE: &'static str = "Nombre";
pub const REGIMEN_FISCAL: &'static str = "RegimenFiscal";
pub const REGIMEN_FISCAL_RECEPTOR: &'static str = "RegimenFiscalReceptor";
pub const USO_CFDI: &'static str = "UsoCFDI";
pub const CLAVE_PROD_SERV: &'static str = "ClaveProdServ";
pub const CANTIDAD: &'static str = "Cantidad";
pub const CLAVE_UNIDAD: &'static str = "ClaveUnidad";
pub const UNIDAD: &'static str = "Unidad";
pub const DESCRIPCION: &'static str = "Descripcion";
pub const VALOR_UNITARIO: &'static str = "ValorUnitario";
pub const IMPORTE: &'static str = "Importe";
pub const VERSION: &'static str = "Version";
pub const UUID: &'static str = "UUID";
pub const FECHA_TIMBRADO: &'static str = "FechaTimbrado";
pub const NO_CERTIFICADO_SAT: &'static str = "NoCertificadoSAT";

/// Why a document could not be read.
#[derive(Clone, Debug, PartialEq)]
pub enum CfdiError {
    /// The text is not well-formed XML; the message is the XML reader's.
    Xml { message: String },
    /// A required attribute is missing from its element.
    MissingAttribute { element: String, attribute: String },
    /// A required child element is missing from its parent.
    MissingElement { parent: String, element: String },
    /// A numeric attribute does not hold a decimal number.
    InvalidNumber { element: String, attribute: String, value: String },
}

pub enum ErrorView {
    Xml { message: Seq<char> },
    MissingAttribute { element: Seq<char>, attribute: Seq<char> },
    MissingElement { parent: Seq<char>, element: Seq<char> },
    InvalidNumber { element: Seq<char>, attribute: Seq<char>, value: Seq<char> },
}

impl View for CfdiError {
    type V = ErrorView;

    open spec fn view(&self) -> ErrorView {
        match self {
            CfdiError::Xml { message } => ErrorView::Xml { message: message@ },
            CfdiError::MissingAttribute { element, attribute } => ErrorView::MissingAttribute {
                element: element@,
                attribute: attribute@,
            },
            CfdiError::MissingElement { parent, element } => ErrorView::MissingElement {
                parent: parent@,
                element: element@,
            },
            CfdiError::InvalidNumber { element, attribute, value } => ErrorView::InvalidNumber {
                element: element@,
                attribute: attribute@,
                value: value@,
            },
        }
    }
}

pub open spec fn missing_attribute(tag: Seq<char>, key: Seq<char>) -> ErrorView {
    ErrorView::MissingAttribute { element: tag, attribute: key }
}

/// A required text attribute of `e`, an element with tag `tag`.
pub open spec fn required_text(e: ElementView, tag: Seq<char>, key: Seq<char>) -> Result<
    Seq<char>,
    ErrorView,
> {
    match attr(e, key) {
        Some(v) => Ok(v),
        None => Err(missing_attribute(tag, key)),
    }
}

/// A required numeric attribute of `e`, an element with tag `tag`.
pub open spec fn required_decimal(e: ElementView, tag: Seq<char>, key: Seq<char>) -> Result<
    Decimal,
    ErrorView,
> {
    match attr(e, key) {
        Some(v) => match decimal_of(v) {
            Some(d) => Ok(d),
            None => Err(ErrorView::InvalidNumber { element: tag, attribute: key, value: v }),
        },
        None => Err(missing_attribute(tag, key)),
    }
}

/// An optional numeric attribute of `e`: absent is no error, text that is
/// no number is.
pub open spec fn optional_decimal(e: ElementView, tag: Seq<char>, key: Seq<char>) -> Result<
    Option<Decimal>,
    ErrorView,
> {
    match attr(e, key) {
        Some(v) => match decimal_of(v) {
            Some(d) => Ok(Some(d)),
            None => Err(ErrorView::InvalidNumber { element: tag, attribute: key, value: v }),
        },
        None => Ok(None),
    }
}

fn missing_attribute_error(tag: &str, key: &str) -> (r: CfdiError)
    ensures
        r@ == missing_attribute(tag@, key@),
{
    CfdiError::MissingAttribute { element: tag.to_owned(), attribute: key.to_owned() }
}

fn read_required_text(e: &Element, tag: &str, key: &str) -> (r: Result<String, CfdiError>)
    ensures
        match r {
            Ok(v) => required_text(e@, tag@, key@) == Ok::<Seq<char>, ErrorView>(v@),
            Err(err) => required_text(e@, tag@, key@) == Err::<Seq<char>, ErrorView>(err@),
        },
{
    match find_attribute(e, key) {
        Some(v) => Ok(v),
        None => Err(missing_attribute_error(tag, key)),
    }
}

fn read_number(tag: &str, key: &str, v: String) -> (r: Result<Decimal, CfdiError>)
    ensures
        match r {
            Ok(d) => decimal_of(v@) == Some(d),
            Err(err) => decimal_of(v@) is None && err@ == (ErrorView::InvalidNumber {
                element: tag@,
                attribute: key@,
                value: v@,
            }),
        },
{
    match parse_decimal(v.as_str()) {
        Some(d) => Ok(d),
        None => Err(
            CfdiError::InvalidNumber { element: tag.to_owned(), attribute: key.to_owned(), value: v },
        ),
    }
}

fn read_required_decimal(e: &Element, tag: &str, key: &str) -> (r: Result<Decimal, CfdiError>)
    ensures
        match r {
            Ok(d) => required_decimal(e@, tag@, key@) == Ok::<Decimal, ErrorView>(d),
            Err(err) => required_decimal(e@, tag@, key@) == Err::<Decimal, ErrorView>(err@),
        },
{
    match find_attribute(e, key) {
        Some(v) => read_number(tag, key, v),
        None => Err(missing_attribute_error(tag, key)),
    }
}

fn read_optional_decimal(e: &Element, tag: &str, key: &str) -> (r: Result<
    Option<Decimal>,
    CfdiError,
>)
    ensures
        match r {
            Ok(d) => optional_decimal(e@, tag@, key@) == Ok::<Option<Decimal>, ErrorView>(d),
            Err(err) => optional_decimal(e@, tag@, key@) == Err::<Option<Decimal>, ErrorView>(
                err@,
            ),
        },
{
    match find_attribute(e, key) {
        Some(v) => match read_number(tag, key, v) {
            Ok(d) => Ok(Some(d)),
            Err(err) => Err(err),
        },
        None => Ok(None),
    }
}

/// The issuer read from an `Emisor` element.
pub open spec fn emisor_spec(e: ElementView) -> Result<EmisorView, ErrorView> {
    let rfc = required_text(e, EMISOR@, RFC@);
    let nombre = required_text(e, EMISOR@, NOMBRE@);
    let regimen = required_text(e, EMISOR@, REGIMEN_FISCAL@);
    if rfc is Err {
        Err(rfc->Err_0)
    } else if nombre is Err {
        Err(nombre->Err_0)
    } else if regimen is Err {
        Err(regimen->Err_0)
    } else {
        Ok(EmisorView { rfc: rfc->Ok_0, nombre: nombre->Ok_0, regimen_fiscal: regimen->Ok_0 })
    }
}

/// The recipient read from a `Receptor` element.
pub open spec fn receptor_spec(e: ElementView) -> Result<ReceptorView, ErrorView> {
    let rfc = required_text(e, RECEPTOR@, RFC@);
    let nombre = required_text(e, RECEPTOR@, NOMBRE@);
    let regimen = required_text(e, RECEPTOR@, REGIMEN_FISCAL_RECEPTOR@);
    let uso = required_text(e, RECEPTOR@, USO_CFDI@);
    if rfc is Err {
        Err(rfc->Err_0)
    } else if nombre is Err {
        Err(nombre->Err_0)
    } else if regimen is Err {
        Err(regimen->Err_0)
    } else if uso is Err {
        Err(uso->Err_0)
    } else {
        Ok(
            ReceptorView {
                rfc: rfc->Ok_0,
                nombre: nombre->Ok_0,
                regimen_fiscal: regimen->Ok_0,
                uso_cfdi: uso->Ok_0,
            },
        )
    }
}

/// The line item read from a `Concepto` element.
pub open spec fn concepto_spec(e: ElementView) -> Result<ConceptoView, ErrorView> {
    let clave = required_text(e, CONCEPTO@, CLAVE_PROD_SERV@);
    let cantidad = required_decimal(e, CONCEPTO@, CANTIDAD@);
    let clave_unidad = required_text(e, CONCEPTO@, CLAVE_UNIDAD@);
    let descripcion = required_text(e, CONCEPTO@, DESCRIPCION@);
    let valor = required_text(e, CONCEPTO@, VALOR_UNITARIO@);
    let importe = required_decimal(e, CONCEPTO@, IMPORTE@);
    let descuento = optional_decimal(e, CONCEPTO@, DESCUENTO@);
    if clave is Err {
        Err(clave->Err_0)
    } else if cantidad is Err {
        Err(cantidad->Err_0)
    } else if clave_unidad is Err {
        Err(clave_unidad->Err_0)
    } else if descripcion is Err {
        Err(descripcion->Err_0)
    } else if valor is Err {
        Err(valor->Err_0)
    } else if importe is Err {
        Err(importe->Err_0)
    } else if descuento is Err {
        Err(descuento->Err_0)
    } else {
        Ok(
            ConceptoView {
                clave_product: clave->Ok_0,
                cantidad: cantidad->Ok_0,
                clave_unidad: clave_unidad->Ok_0,
                unidad: attr(e, UNIDAD@),
                descripcion: descripcion->Ok_0,
                valor_unitario: valor->Ok_0,
                importe: importe->Ok_0,
                descuento: descuento->Ok_0,
            },
        )
    }
}

/// The line items read from the children of a `Conceptos` element: each
/// `Concepto` child in order, other children skipped, the first error kept.
pub open spec fn conceptos_spec(cs: Seq<ElementView>) -> Result<Seq<ConceptoView>, ErrorView>
    decreases cs.len(),
{
    if cs.len() == 0 {
        Ok(Seq::empty())
    } else {
        let prev = conceptos_spec(cs.drop_last());
        if prev is Err {
            prev
        } else if cs.last().name == CONCEPTO@ {
            match concepto_spec(cs.last()) {
                Ok(c) => Ok(prev->Ok_0.push(c)),
                Err(err) => Err(err),
            }
        } else {
            prev
        }
    }
}

/// The stamp read from a `TimbreFiscalDigital` element.
pub open spec fn timbre_spec(e: ElementView) -> Result<TimbreView, ErrorView> {
    let version = required_text(e, TIMBRE@, VERSION@);
    let uuid = required_text(e, TIMBRE@, UUID@);
    let fecha = required_text(e, TIMBRE@, FECHA_TIMBRADO@);
    let cert = required_text(e, TIMBRE@, NO_CERTIFICADO_SAT@);
    if version is Err {
        Err(version->Err_0)
    } else if uuid is Err {
        Err(uuid->Err_0)
    } else if fecha is Err {
        Err(fecha->Err_0)
    } else if cert is Err {
        Err(cert->Err_0)
    } else {
        Ok(
            TimbreView {
                version: version->Ok_0,
                uuid: uuid->Ok_0,
                fecha_timbrado: fecha->Ok_0,
                no_certificado_sat: cert->Ok_0,
            },
        )
    }
}

/// The stamp read from a `Complemento` element: its first
/// `TimbreFiscalDigital` child, where it has one.
pub open spec fn complemento_spec(e: ElementView) -> Result<Option<TimbreView>, ErrorView> {
    match child(e, TIMBRE@) {
        Some(t) => match timbre_spec(t) {
            Ok(v) => Ok(Some(v)),
            Err(err) => Err(err),
        },
        None => Ok(None),
    }
}

pub open spec fn missing_element(parent: Seq<char>, name: Seq<char>) -> ErrorView {
    ErrorView::MissingElement { parent, element: name }
}

/// A required child of the `Comprobante` element, read by `f`.
pub open spec fn required_child<T>(
    e: ElementView,
    name: Seq<char>,
    f: spec_fn(ElementView) -> Result<T, ErrorView>,
) -> Result<T, ErrorView> {
    match child(e, name) {
        Some(c) => f(c),
        None => Err(missing_element(COMPROBANTE@, name)),
    }
}

/// The invoice read from the root element: its attributes first, in the
/// order of the fields, then the issuer, the recipient, the line items and
/// the supplement. The first child of each name is read; children of other
/// names are skipped.
pub open spec fn comprobante_spec(e: ElementView) -> Result<ComprobanteView, ErrorView> {
    let total = required_decimal(e, COMPROBANTE@, TOTAL@);
    let subtotal = required_decimal(e, COMPROBANTE@, SUBTOTAL@);
    let fecha = required_text(e, COMPROBANTE@, FECHA@);
    let tipo = required_text(e, COMPROBANTE@, TIPO_COMPROBANTE@);
    let emisor = required_child(e, EMISOR@, |c: ElementView| emisor_spec(c));
    let receptor = required_child(e, RECEPTOR@, |c: ElementView| receptor_spec(c));
    let conceptos = required_child(e, CONCEPTOS@, |c: ElementView| conceptos_spec(c.children));
    let complemento = match child(e, COMPLEMENTO@) {
        Some(c) => match complemento_spec(c) {
            Ok(t) => Ok(Some(t)),
            Err(err) => Err(err),
        },
        None => Ok(None),
    };
    if total is Err {
        Err(total->Err_0)
    } else if subtotal is Err {
        Err(subtotal->Err_0)
    } else if fecha is Err {
        Err(fecha->Err_0)
    } else if tipo is Err {
        Err(tipo->Err_0)
    } else if emisor is Err {
        Err(emisor->Err_0)
    } else if receptor is Err {
        Err(receptor->Err_0)
    } else if conceptos is Err {
        Err(conceptos->Err_0)
    } else if complemento is Err {
        Err(complemento->Err_0)
    } else {
        Ok(
            ComprobanteView {
                total: total->Ok_0,
                subtotal: subtotal->Ok_0,
                fecha: fecha->Ok_0,
                forma_pago: attr(e, FORMA_PAGO@),
                descuento: attr(e, DESCUENTO@),
                tipo_comprobante: tipo->Ok_0,
                emisor: emisor->Ok_0,
                receptor: receptor->Ok_0,
                conceptos: conceptos->Ok_0,
                complemento: complemento->Ok_0,
            },
        )
    }
}

/// Reads the issuer from an `Emisor` element.
pub fn decode_emisor(e: &Element) -> (r: Result<Emisor, CfdiError>)
    ensures
        match r {
            Ok(v) => emisor_spec(e@) == Ok::<EmisorView, ErrorView>(v@),
            Err(err) => emisor_spec(e@) == Err::<EmisorView, ErrorView>(err@),
        },
{
    let rfc = read_required_text(e, EMISOR, RFC)?;
    let nombre = read_required_text(e, EMISOR, NOMBRE)?;
    let regimen_fiscal = read_required_text(e, EMISOR, REGIMEN_FISCAL)?;
    Ok(Emisor { rfc, nombre, regimen_fiscal })
}

/// Reads the recipient from a `Receptor` element.
pub fn decode_receptor(e: &Element) -> (r: Result<Receptor, CfdiError>)
    ensures
        match r {
            Ok(v) => receptor_spec(e@) == Ok::<ReceptorView, ErrorView>(v@),
            Err(err) => receptor_spec(e@) == Err::<ReceptorView, ErrorView>(err@),
        },
{
    let rfc = read_required_text(e, RECEPTOR, RFC)?;
    let nombre = read_required_text(e, RECEPTOR, NOMBRE)?;
    let regimen_fiscal = read_required_text(e, RECEPTOR, REGIMEN_FISCAL_RECEPTOR)?;
    let uso_cfdi = read_required_text(e, RECEPTOR, USO_CFDI)?;
    Ok(Receptor { rfc, nombre, regimen_fiscal, uso_cfdi })
}

/// Reads one line item from a `Concepto` element.
pub fn decode_concepto(e: &Element) -> (r: Result<Concepto, CfdiError>)
    ensures
        match r {
            Ok(v) => concepto_spec(e@) == Ok::<ConceptoView, ErrorView>(v@),
            Err(err) => concepto_spec(e@) == Err::<ConceptoView, ErrorView>(err@),
        },
{
    let clave_product = read_required_text(e, CONCEPTO, CLAVE_PROD_SERV)?;
    let cantidad = read_required_decimal(e, CONCEPTO, CANTIDAD)?;
    let clave_unidad = read_required_text(e, CONCEPTO, CLAVE_UNIDAD)?;
    let descripcion = read_required_text(e, CONCEPTO, DESCRIPCION)?;
    let valor_unitario = read_required_text(e, CONCEPTO, VALOR_UNITARIO)?;
    let importe = read_required_decimal(e, CONCEPTO, IMPORTE)?;
    let descuento = read_optional_decimal(e, CONCEPTO, DESCUENTO)?;
    let unidad = find_attribute(e, UNIDAD);
    Ok(
        Concepto {
            clave_product,
            cantidad,
            clave_unidad,
            unidad,
            descripcion,
            valor_unitario,
            importe,
            descuento,
        },
    )
}

pub(crate) proof fn lemma_conceptos_error_stays(cs: Seq<ElementView>, k: int)
    requires
        0 <= k <= cs.len(),
        conceptos_spec(cs.take(k)) is Err,
    ensures
        conceptos_spec(cs) == conceptos_spec(cs.take(k)),
    decreases cs.len(),
{
    if k == cs.len() {
        assert(cs.take(k) =~= cs);
    } else {
        assert(cs.drop_last().take(k) =~= cs.take(k));
        lemma_conceptos_error_stays(cs.drop_last(), k);
    }
}

/// Reads the line items from the children of a `Conceptos` element.
pub fn decode_conceptos(cs: &Vec<Element>) -> (r: Result<Vec<Concepto>, CfdiError>)
    ensures
        match r {
            Ok(v) => conceptos_spec(views(cs@)) == Ok::<Seq<ConceptoView>, ErrorView>(
                conceptos_view(v@),
            ),
            Err(err) => conceptos_spec(views(cs@)) == Err::<Seq<ConceptoView>, ErrorView>(err@),
        },
{
    let wanted = CONCEPTO.to_owned();
    let mut out: Vec<Concepto> = Vec::new();
    assert(views(cs@).take(0) =~= Seq::<ElementView>::empty());
    assert(conceptos_view(out@) =~= Seq::<ConceptoView>::empty());
    let mut i: usize = 0;
    while i < cs.len()
        invariant
            wanted@ == CONCEPTO@,
            i <= cs@.len(),
            conceptos_spec(views(cs@).take(i as int)) == Ok::<Seq<ConceptoView>, ErrorView>(
                conceptos_view(out@),
            ),
        decreases cs@.len() - i,
    {
        let ghost prev = out@;
        assert(views(cs@).take(i + 1).drop_last() =~= views(cs@).take(i as int));
        assert(views(cs@)[i as int] == cs@[i as int]@);
        if cs[i].name == wanted {
            let c = match decode_concepto(&cs[i]) {
                Ok(c) => c,
                Err(err) => {
                    proof {
                        lemma_conceptos_error_stays(views(cs@), i + 1);
                    }
                    return Err(err);
                },
            };
            out.push(c);
            assert(conceptos_view(out@) =~= conceptos_view(prev).push(c@));
        }
        i = i + 1;
    }
    assert(views(cs@).take(i as int) =~= views(cs@));
    Ok(out)
}

/// Reads the stamp from a `TimbreFiscalDigital` element.
pub fn decode_timbre(e: &Element) -> (r: Result<TimbreFiscalDigital, CfdiError>)
    ensures
        match r {
            Ok(v) => timbre_spec(e@) == Ok::<TimbreView, ErrorView>(v@),
            Err(err) => timbre_spec(e@) == Err::<TimbreView, ErrorView>(err@),
        },
{
    let version = read_required_text(e, TIMBRE, VERSION)?;
    let uuid = read_required_text(e, TIMBRE, UUID)?;
    let fecha_timbrado = read_required_text(e, TIMBRE, FECHA_TIMBRADO)?;
    let no_certificado_sat = read_required_text(e, TIMBRE, NO_CERTIFICADO_SAT)?;
    Ok(TimbreFiscalDigital { version, uuid, fecha_timbrado, no_certificado_sat })
}

/// Reads the supplement from a `Complemento` element.
pub fn decode_complemento(e: &Element) -> (r: Result<Complemento, CfdiError>)
    ensures
        match r {
            Ok(v) => complemento_spec(e@) == Ok::<Option<TimbreView>, ErrorView>(
                timbre_view(v.timbre_fiscal_digital),
            ),
            Err(err) => complemento_spec(e@) == Err::<Option<TimbreView>, ErrorView>(err@),
        },
{
    match find_child(e, TIMBRE) {
        Some(i) => {
            let t = decode_timbre(&e.children[i])?;
            Ok(Complemento { timbre_fiscal_digital: Some(t) })
        },
        None => Ok(Complemento { timbre_fiscal_digital: None }),
    }
}

fn missing_element_error(name: &str) -> (r: CfdiError)
    ensures
        r@ == missing_element(COMPROBANTE@, name@),
{
    CfdiError::MissingElement { parent: COMPROBANTE.to_owned(), element: name.to_owned() }
}

/// Reads the invoice from the root element of a document.
pub fn comprobante_from_element(e: &Element) -> (r: Result<Comprobante, CfdiError>)
    ensures
        match r {
            Ok(v) => comprobante_spec(e@) == Ok::<ComprobanteView, ErrorView>(v@),
            Err(err) => comprobante_spec(e@) == Err::<ComprobanteView, ErrorView>(err@),
        },
{
    let total = read_required_decimal(e, COMPROBANTE, TOTAL)?;
    let subtotal = read_required_decimal(e, COMPROBANTE, SUBTOTAL)?;
    let fecha = read_required_text(e, COMPROBANTE, FECHA)?;
    let tipo_comprobante = read_required_text(e, COMPROBANTE, TIPO_COMPROBANTE)?;
    let emisor = match find_child(e, EMISOR) {
        Some(i) => decode_emisor(&e.children[i])?,
        None => {
            return Err(missing_element_error(EMISOR));
        },
    };
    let receptor = match find_child(e, RECEPTOR) {
        Some(i) => decode_receptor(&e.children[i])?,
        None => {
            return Err(missing_element_error(RECEPTOR));
        },
    };
    let concepto = match find_child(e, CONCEPTOS) {
        Some(i) => decode_conceptos(&e.children[i].children)?,
        None => {
            return Err(missing_element_error(CONCEPTOS));
        },
    };
    let complemento = match find_child(e, COMPLEMENTO) {
        Some(i) => Some(decode_complemento(&e.children[i])?),
        None => None,
    };
    let forma_pago = find_attribute(e, FORMA_PAGO);
    let descuento = find_attribute(e, DESCUENTO);
    Ok(
        Comprobante {
            total,
            subtotal,
            fecha,
            forma_pago,
            descuento,
            tipo_comprobante,
            emisor,
            receptor,
            conceptos: Conceptos { concepto },
            complemento,
        },
    )
}

} // verus!
