use cfdi::{parse_cfdi, parse_decimal, CfdiError, Decimal};

fn dec(negative: bool, mantissa: u128, scale: usize) -> Decimal {
    Decimal { negative, mantissa, scale }
}

const PARTIES: &str = r#"<cfdi:Emisor Rfc="AAA010101AAA" Nombre="Emisora SA" RegimenFiscal="601"/>
<cfdi:Receptor Rfc="BBB010101BBB" Nombre="Receptora SA" RegimenFiscalReceptor="612" UsoCFDI="G03"/>"#;

const CONCEPT: &str = r#"<cfdi:Concepto ClaveProdServ="01010101" Cantidad="1" ClaveUnidad="H87" Descripcion="Pieza" ValorUnitario="100.00" Importe="100.00"/>"#;

const STAMP: &str = r#"<cfdi:Complemento><tfd:TimbreFiscalDigital Version="1.1" UUID="ABCD-1234" FechaTimbrado="2024-01-01T12:05:00" NoCertificadoSAT="00001000000504465028"/></cfdi:Complemento>"#;

fn document(root_attrs: &str, extra: &str, concepts: &str, complement: &str) -> String {
    format!(
        r#"<?xml version="1.0" encoding="UTF-8"?>
<cfdi:Comprobante xmlns:cfdi="http://www.sat.gob.mx/cfd/4" {}>
{}
{}
<cfdi:Conceptos>{}</cfdi:Conceptos>
{}
</cfdi:Comprobante>"#,
        root_attrs, extra, PARTIES, concepts, complement
    )
}

const ROOT: &str = r#"Total="100.00" SubTotal="100.00" Fecha="2024-01-01T12:00:00" TipoDeComprobante="I""#;

#[test]
fn minimal_document_parses() {
    let doc = parse_cfdi(&document(ROOT, "", CONCEPT, "")).unwrap();
    assert_eq!(doc.total, dec(false, 10000, 2));
    assert_eq!(doc.subtotal, dec(false, 10000, 2));
    assert_eq!(doc.fecha, "2024-01-01T12:00:00");
    assert_eq!(doc.tipo_comprobante, "I");
    assert_eq!(doc.get_uuid(), None);
    assert_eq!(doc.get_fecha_timbrado(), None);
    assert_eq!(doc.emisor.rfc, "AAA010101AAA");
    assert_eq!(doc.emisor.nombre, "Emisora SA");
    assert_eq!(doc.emisor.regimen_fiscal, "601");
    assert_eq!(doc.receptor.regimen_fiscal, "612");
    assert_eq!(doc.receptor.uso_cfdi, "G03");
    assert_eq!(doc.conceptos.concepto.len(), 1);
    assert!(doc.complemento.is_none());
}

#[test]
fn optional_root_attributes_absent() {
    let doc = parse_cfdi(&document(ROOT, "", CONCEPT, "")).unwrap();
    assert_eq!(doc.forma_pago, None);
    assert_eq!(doc.descuento, None);
}

#[test]
fn optional_root_attributes_present() {
    let attrs = format!(r#"{} FormaPago="01" Descuento="5.00""#, ROOT);
    let doc = parse_cfdi(&document(&attrs, "", CONCEPT, "")).unwrap();
    assert_eq!(doc.forma_pago, Some("01".to_string()));
    assert_eq!(doc.descuento, Some("5.00".to_string()));
}

#[test]
fn stamped_document_has_uuid_and_date() {
    let doc = parse_cfdi(&document(ROOT, "", CONCEPT, STAMP)).unwrap();
    assert_eq!(doc.get_uuid(), Some("ABCD-1234".to_string()));
    assert_eq!(doc.get_fecha_timbrado(), Some("2024-01-01T12:05:00".to_string()));
    let tfd = doc.complemento.clone().unwrap().timbre_fiscal_digital.unwrap();
    assert_eq!(tfd.version, "1.1");
    assert_eq!(tfd.no_certificado_sat, "00001000000504465028");
}

#[test]
fn complement_without_stamp_has_no_uuid() {
    let other = r#"<cfdi:Complemento><pago20:Pagos Version="2.0"/></cfdi:Complemento>"#;
    let doc = parse_cfdi(&document(ROOT, "", CONCEPT, other)).unwrap();
    assert!(doc.complemento.is_some());
    assert_eq!(doc.get_uuid(), None);
    assert_eq!(doc.get_fecha_timbrado(), None);
}

#[test]
fn summary_matches_accessors() {
    for complement in [STAMP, ""] {
        let doc = parse_cfdi(&document(ROOT, "", CONCEPT, complement)).unwrap();
        let uuid = doc.get_uuid();
        let fecha = doc.get_fecha_timbrado();
        let conceptos = doc.get_conceptos();
        let datos = doc.get_datos_principales();
        assert_eq!(datos.uuid, uuid);
        assert_eq!(datos.fecha_timbrado, fecha);
        assert_eq!(datos.conceptos, conceptos);
        assert_eq!(datos.total, dec(false, 10000, 2));
        assert_eq!(datos.fecha, "2024-01-01T12:00:00");
        assert_eq!(datos.emisor_nombre, "Emisora SA");
        assert_eq!(datos.emisor_rfc, "AAA010101AAA");
        assert_eq!(datos.receptor_nombre, "Receptora SA");
        assert_eq!(datos.receptor_rfc, "BBB010101BBB");
    }
}

fn concept(desc: &str) -> String {
    format!(
        r#"<cfdi:Concepto ClaveProdServ="01010101" Cantidad="2.5" ClaveUnidad="H87" Unidad="Pieza" Descripcion="{}" ValorUnitario="4" Importe="10" Descuento="0.50"/>"#,
        desc
    )
}

#[test]
fn concepts_keep_document_order() {
    let concepts = format!("{}{}{}", concept("A"), concept("B"), concept("C"));
    let doc = parse_cfdi(&document(ROOT, "", &concepts, "")).unwrap();
    let names: Vec<String> = doc.get_conceptos().into_iter().map(|c| c.descripcion).collect();
    assert_eq!(names, vec!["A", "B", "C"]);
    let c = &doc.conceptos.concepto[0];
    assert_eq!(c.cantidad, dec(false, 25, 1));
    assert_eq!(c.importe, dec(false, 10, 0));
    assert_eq!(c.descuento, Some(dec(false, 50, 2)));
    assert_eq!(c.unidad, Some("Pieza".to_string()));
    let datos = doc.get_datos_principales();
    let names: Vec<String> = datos.conceptos.into_iter().map(|c| c.descripcion).collect();
    assert_eq!(names, vec!["A", "B", "C"]);
}

#[test]
fn single_concept_is_a_sequence() {
    let doc = parse_cfdi(&document(ROOT, "", &concept("Solo"), "")).unwrap();
    assert_eq!(doc.get_conceptos().len(), 1);
    assert_eq!(doc.conceptos.concepto[0].descripcion, "Solo");
}

#[test]
fn missing_total_fails() {
    let attrs = r#"SubTotal="100.00" Fecha="2024-01-01T12:00:00" TipoDeComprobante="I""#;
    let err = parse_cfdi(&document(attrs, "", CONCEPT, "")).unwrap_err();
    assert_eq!(
        err,
        CfdiError::MissingAttribute { element: "Comprobante".to_string(), attribute: "Total".to_string() }
    );
}

#[test]
fn missing_importe_fails() {
    let bad = r#"<cfdi:Concepto ClaveProdServ="01010101" Cantidad="1" ClaveUnidad="H87" Descripcion="Pieza" ValorUnitario="100.00"/>"#;
    let err = parse_cfdi(&document(ROOT, "", bad, "")).unwrap_err();
    assert_eq!(
        err,
        CfdiError::MissingAttribute { element: "Concepto".to_string(), attribute: "Importe".to_string() }
    );
}

#[test]
fn missing_emisor_fails() {
    let xml = format!(
        r#"<Comprobante {}><Receptor Rfc="B" Nombre="B" RegimenFiscalReceptor="612" UsoCFDI="G03"/><Conceptos/></Comprobante>"#,
        ROOT
    );
    let err = parse_cfdi(&xml).unwrap_err();
    assert_eq!(
        err,
        CfdiError::MissingElement { parent: "Comprobante".to_string(), element: "Emisor".to_string() }
    );
}

#[test]
fn missing_stamp_uuid_fails() {
    let stamp = r#"<cfdi:Complemento><tfd:TimbreFiscalDigital Version="1.1" FechaTimbrado="x" NoCertificadoSAT="y"/></cfdi:Complemento>"#;
    let err = parse_cfdi(&document(ROOT, "", CONCEPT, stamp)).unwrap_err();
    assert_eq!(
        err,
        CfdiError::MissingAttribute {
            element: "TimbreFiscalDigital".to_string(),
            attribute: "UUID".to_string()
        }
    );
}

#[test]
fn non_numeric_total_fails() {
    let attrs = r#"Total="cien" SubTotal="100.00" Fecha="2024-01-01T12:00:00" TipoDeComprobante="I""#;
    let err = parse_cfdi(&document(attrs, "", CONCEPT, "")).unwrap_err();
    assert_eq!(
        err,
        CfdiError::InvalidNumber {
            element: "Comprobante".to_string(),
            attribute: "Total".to_string(),
            value: "cien".to_string()
        }
    );
}

#[test]
fn malformed_xml_fails() {
    let err = parse_cfdi("<cfdi:Comprobante Total=\"1\"><cfdi:Emisor></cfdi:Comprobante>").unwrap_err();
    assert!(matches!(err, CfdiError::Xml { .. }));
    let err = parse_cfdi("").unwrap_err();
    assert!(matches!(err, CfdiError::Xml { .. }));
    let err = parse_cfdi("<a b=\"1\" b=\"2\"/>").unwrap_err();
    assert!(matches!(err, CfdiError::Xml { .. }));
}

#[test]
fn unknown_elements_are_ignored() {
    let related = r#"<cfdi:CfdiRelacionados TipoRelacion="04"><cfdi:CfdiRelacionado UUID="X"/></cfdi:CfdiRelacionados>
<cfdi:InformacionGlobal Periodicidad="01"/>"#;
    let with = parse_cfdi(&document(ROOT, related, CONCEPT, STAMP)).unwrap();
    let without = parse_cfdi(&document(ROOT, "", CONCEPT, STAMP)).unwrap();
    assert_eq!(with, without);
}

#[test]
fn unknown_attributes_are_ignored() {
    let attrs = format!(r#"{} Version="4.0" Sello="abc" Moneda="MXN""#, ROOT);
    let with = parse_cfdi(&document(&attrs, "", CONCEPT, "")).unwrap();
    let without = parse_cfdi(&document(ROOT, "", CONCEPT, "")).unwrap();
    assert_eq!(with, without);
}

#[test]
fn unit_value_kept_as_text() {
    let c = r#"<cfdi:Concepto ClaveProdServ="1" Cantidad="1" ClaveUnidad="H87" Descripcion="d" ValorUnitario="10.500" Importe="10.5"/>"#;
    let doc = parse_cfdi(&document(ROOT, "", c, "")).unwrap();
    assert_eq!(doc.conceptos.concepto[0].valor_unitario, "10.500");
    assert_eq!(doc.conceptos.concepto[0].importe, dec(false, 105, 1));
}

#[test]
fn names_lose_their_prefix_and_values_their_escapes() {
    let xml = r#"<x:Comprobante Total="1" SubTotal="1" Fecha="f" TipoDeComprobante="I"><x:Emisor Rfc="A&amp;B" Nombre="Caf&#233; &lt;SA&gt;" RegimenFiscal="601"/><Receptor Rfc="B" Nombre="B" RegimenFiscalReceptor="612" UsoCFDI="G03"/><Conceptos/></x:Comprobante>"#;
    let doc = parse_cfdi(xml).unwrap();
    assert_eq!(doc.emisor.rfc, "A&B");
    assert_eq!(doc.emisor.nombre, "Café <SA>");
    assert!(doc.get_conceptos().is_empty());
    let tree = cfdi::parse_element_tree(xml).unwrap();
    assert_eq!(tree.name, "Comprobante");
    assert_eq!(tree.children[0].name, "Emisor");
    assert_eq!(tree.attributes[0].name, "Total");
}

#[test]
fn decimals_read_exactly() {
    assert_eq!(parse_decimal("100.00"), Some(dec(false, 10000, 2)));
    assert_eq!(parse_decimal("-3.25"), Some(dec(true, 325, 2)));
    assert_eq!(parse_decimal("+7"), Some(dec(false, 7, 0)));
    assert_eq!(parse_decimal(".5"), Some(dec(false, 5, 1)));
    assert_eq!(parse_decimal("5."), Some(dec(false, 5, 0)));
    assert_eq!(parse_decimal("0"), Some(dec(false, 0, 0)));
}

#[test]
fn decimals_trimmed_and_exponents_folded() {
    assert_eq!(parse_decimal(" 100.00 "), Some(dec(false, 10000, 2)));
    assert_eq!(parse_decimal("\n\t7\r"), Some(dec(false, 7, 0)));
    assert_eq!(parse_decimal(" 1"), Some(dec(false, 1, 0)));
    assert_eq!(parse_decimal("1e2"), Some(dec(false, 100, 0)));
    assert_eq!(parse_decimal("1.5E-1"), Some(dec(false, 15, 2)));
    assert_eq!(parse_decimal("-2.50e1"), Some(dec(true, 250, 1)));
    assert_eq!(parse_decimal("12.345e+5"), Some(dec(false, 1234500, 0)));
    assert_eq!(parse_decimal("0e99"), Some(dec(false, 0, 0)));
    assert_eq!(parse_decimal("1e39"), None);
}

#[test]
fn padded_total_parses() {
    let attrs = r#"Total=" 100.00 " SubTotal="1e2" Fecha="2024-01-01T12:00:00" TipoDeComprobante="I""#;
    let doc = parse_cfdi(&document(attrs, "", CONCEPT, "")).unwrap();
    assert_eq!(doc.total, dec(false, 10000, 2));
    assert_eq!(doc.subtotal, dec(false, 100, 0));
}

#[test]
fn non_decimals_rejected() {
    assert_eq!(parse_decimal(""), None);
    assert_eq!(parse_decimal("-"), None);
    assert_eq!(parse_decimal("."), None);
    assert_eq!(parse_decimal("1.2.3"), None);
    assert_eq!(parse_decimal("1e"), None);
    assert_eq!(parse_decimal("e5"), None);
    assert_eq!(parse_decimal("1e2.5"), None);
    assert_eq!(parse_decimal("1 2"), None);
    assert_eq!(parse_decimal("inf"), None);
    assert_eq!(parse_decimal("NaN"), None);
    assert_eq!(parse_decimal("１"), None);
    assert_eq!(parse_decimal("340282366920938463463374607431768211455"), Some(dec(false, u128::MAX, 0)));
    assert_eq!(parse_decimal("340282366920938463463374607431768211456"), None);
}
