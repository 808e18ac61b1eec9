//! Properties of reading an invoice that hold for every element tree.
use vstd::prelude::*;
use crate::decimal::decimal_of;
use crate::decode::{
    lemma_conceptos_error_stays,
    comprobante_spec, concepto_spec, conceptos_spec, missing_attribute, COMPLEMENTO,
    COMPROBANTE, CONCEPTO, CONCEPTOS, DESCUENTO, EMISOR, FECHA, FORMA_PAGO, IMPORTE, RECEPTOR,
    SUBTOTAL, TIMBRE, TIPO_COMPROBANTE, TOTAL, VALOR_UNITARIO,
};
use crate::element::{attr, child, element_names, first_index, ElementView};
use crate::model::{datos_of, fecha_timbrado_of, uuid_of, Comprobante, ComprobanteView, ConceptoView};

verus! {

/// The children of a `Conceptos` element that are line items, in order.
pub open spec fn concepto_children(cs: Seq<ElementView>) -> Seq<ElementView>
    decreases cs.len(),
{
    if cs.len() == 0 {
        cs
    } else if cs.last().name == CONCEPTO@ {
        concepto_children(cs.drop_last()).push(cs.last())
    } else {
        concepto_children(cs.drop_last())
    }
}

proof fn lemma_conceptos_error_from_concepto(cs: Seq<ElementView>)
    requires
        conceptos_spec(cs) is Err,
    ensures
        exists|k: ElementView|
            concepto_spec(k) is Err && #[trigger] concepto_spec(k)->Err_0 == conceptos_spec(
                cs,
            )->Err_0,
    decreases cs.len(),
{
    if conceptos_spec(cs.drop_last()) is Err {
        lemma_conceptos_error_from_concepto(cs.drop_last());
    } else {
        assert(concepto_spec(cs.last()) is Err);
    }
}

/// A valid document keeps its required attributes: total and subtotal are
/// the decimals that their text denotes, date and voucher type are the text
/// itself.
pub proof fn lemma_required_fields_round_trip(e: ElementView)
    requires
        comprobante_spec(e) is Ok,
    ensures
        attr(e, TOTAL@) is Some && decimal_of(attr(e, TOTAL@)->Some_0) == Some(
            comprobante_spec(e)->Ok_0.total,
        ),
        attr(e, SUBTOTAL@) is Some && decimal_of(attr(e, SUBTOTAL@)->Some_0) == Some(
            comprobante_spec(e)->Ok_0.subtotal,
        ),
        attr(e, FECHA@) == Some(comprobante_spec(e)->Ok_0.fecha),
        attr(e, TIPO_COMPROBANTE@) == Some(comprobante_spec(e)->Ok_0.tipo_comprobante),
{
}

/// A document without payment method or discount reads them as absent, and
/// their absence is never the error reported.
pub proof fn lemma_optional_fields_absent(e: ElementView)
    requires
        attr(e, FORMA_PAGO@) is None,
        attr(e, DESCUENTO@) is None,
    ensures
        comprobante_spec(e) is Ok ==> comprobante_spec(e)->Ok_0.forma_pago is None
            && comprobante_spec(e)->Ok_0.descuento is None,
        comprobante_spec(e) is Err ==> comprobante_spec(e)->Err_0 != missing_attribute(
            COMPROBANTE@,
            FORMA_PAGO@,
        ) && comprobante_spec(e)->Err_0 != missing_attribute(COMPROBANTE@, DESCUENTO@),
{
    let cl = child(e, CONCEPTOS@);
    if cl is Some && conceptos_spec(cl->Some_0.children) is Err {
        lemma_conceptos_error_from_concepto(cl->Some_0.children);
    }
    reveal_strlit("Comprobante");
    reveal_strlit("Emisor");
    reveal_strlit("Receptor");
    reveal_strlit("Concepto");
    reveal_strlit("TimbreFiscalDigital");
    reveal_strlit("Total");
    reveal_strlit("SubTotal");
    reveal_strlit("Fecha");
    reveal_strlit("TipoDeComprobante");
    reveal_strlit("FormaPago");
    reveal_strlit("Descuento");
    assert(COMPROBANTE@[0] != EMISOR@[0] && COMPROBANTE@[0] != RECEPTOR@[0]);
    assert(COMPROBANTE@[0] != TIMBRE@[0] && COMPROBANTE@[2] != CONCEPTO@[2]);
    assert(FORMA_PAGO@[0] != TOTAL@[0] && FORMA_PAGO@[0] != SUBTOTAL@[0]);
    assert(FORMA_PAGO@[1] != FECHA@[1] && FORMA_PAGO@[0] != TIPO_COMPROBANTE@[0]);
    assert(DESCUENTO@[0] != TOTAL@[0] && DESCUENTO@[0] != SUBTOTAL@[0]);
    assert(DESCUENTO@[0] != FECHA@[0] && DESCUENTO@[0] != TIPO_COMPROBANTE@[0]);
}

/// A read document has a UUID exactly when it has a stamp date, and exactly
/// when its root holds a `Complemento` that holds a `TimbreFiscalDigital`.
pub proof fn lemma_stamp_presence(e: ElementView)
    requires
        comprobante_spec(e) is Ok,
    ensures
        uuid_of(comprobante_spec(e)->Ok_0) is Some <==> fecha_timbrado_of(
            comprobante_spec(e)->Ok_0,
        ) is Some,
        uuid_of(comprobante_spec(e)->Ok_0) is Some <==> (child(e, COMPLEMENTO@) is Some && child(
            child(e, COMPLEMENTO@)->Some_0,
            TIMBRE@,
        ) is Some),
{
}

/// Any invoice value has a UUID exactly when it has a stamp date, and
/// exactly when it holds a supplement that holds a stamp.
pub proof fn lemma_stamp_presence_of_value(c: Comprobante)
    ensures
        uuid_of(c@) is Some <==> fecha_timbrado_of(c@) is Some,
        uuid_of(c@) is Some <==> (c.complemento is Some
            && c.complemento->Some_0.timbre_fiscal_digital is Some),
{
}

/// The summary's UUID and stamp date are those that the accessors give.
pub proof fn lemma_summary_matches_accessors(c: Comprobante)
    ensures
        datos_of(c@).uuid == uuid_of(c@),
        datos_of(c@).fecha_timbrado == fecha_timbrado_of(c@),
        datos_of(c@).conceptos == c@.conceptos,
{
}

proof fn lemma_conceptos_in_order(cs: Seq<ElementView>)
    requires
        conceptos_spec(cs) is Ok,
    ensures
        conceptos_spec(cs)->Ok_0.len() == concepto_children(cs).len(),
        forall|k: int|
            0 <= k < concepto_children(cs).len() ==> concepto_spec(
                #[trigger] concepto_children(cs)[k],
            ) == Ok::<ConceptoView, crate::decode::ErrorView>(conceptos_spec(cs)->Ok_0[k]),
    decreases cs.len(),
{
    if cs.len() > 0 {
        lemma_conceptos_in_order(cs.drop_last());
    }
}

/// The line items of a read document are its `Concepto` elements, read one
/// by one in document order; the summary keeps that sequence.
pub proof fn lemma_concept_order(e: ElementView)
    requires
        comprobante_spec(e) is Ok,
    ensures
        child(e, CONCEPTOS@) is Some,
        comprobante_spec(e)->Ok_0.conceptos.len() == concepto_children(
            child(e, CONCEPTOS@)->Some_0.children,
        ).len(),
        forall|k: int|
            0 <= k < comprobante_spec(e)->Ok_0.conceptos.len() ==> concepto_spec(
                #[trigger] concepto_children(child(e, CONCEPTOS@)->Some_0.children)[k],
            ) == Ok::<ConceptoView, crate::decode::ErrorView>(
                comprobante_spec(e)->Ok_0.conceptos[k],
            ),
        datos_of(comprobante_spec(e)->Ok_0).conceptos == comprobante_spec(e)->Ok_0.conceptos,
{
    lemma_conceptos_in_order(child(e, CONCEPTOS@)->Some_0.children);
}

/// A root without `Total` fails, reporting that attribute as missing.
pub proof fn lemma_missing_total(e: ElementView)
    requires
        attr(e, TOTAL@) is None,
    ensures
        comprobante_spec(e) == Err::<ComprobanteView, crate::decode::ErrorView>(
            missing_attribute(COMPROBANTE@, TOTAL@),
        ),
{
}

/// A line item without `Importe` fails, and so does the whole document.
pub proof fn lemma_missing_importe(e: ElementView, j: int)
    requires
        child(e, CONCEPTOS@) is Some,
        0 <= j < child(e, CONCEPTOS@)->Some_0.children.len(),
        child(e, CONCEPTOS@)->Some_0.children[j].name == CONCEPTO@,
        attr(child(e, CONCEPTOS@)->Some_0.children[j], IMPORTE@) is None,
    ensures
        concepto_spec(child(e, CONCEPTOS@)->Some_0.children[j]) is Err,
        comprobante_spec(e) is Err,
{
    let cs = child(e, CONCEPTOS@)->Some_0.children;
    assert(cs.take(j + 1).drop_last() =~= cs.take(j));
    assert(cs.take(j + 1).last() == cs[j]);
    lemma_conceptos_error_stays(cs, j + 1);
}

proof fn lemma_first_index_shape(names: Seq<Seq<char>>, key: Seq<char>)
    ensures
        match first_index(names, key) {
            Some(i) => 0 <= i < names.len() && names[i] == key && forall|j: int|
                0 <= j < i ==> names[j] != key,
            None => forall|j: int| 0 <= j < names.len() ==> names[j] != key,
        },
    decreases names.len(),
{
    if names.len() > 0 {
        let d = names.drop_last();
        lemma_first_index_shape(d, key);
        assert forall|j: int| 0 <= j < d.len() implies d[j] == names[j] by {}
        if first_index(d, key) is None && names.last() != key {
            assert forall|j: int| 0 <= j < names.len() implies names[j] != key by {
                if j < d.len() {
                    assert(d[j] == names[j]);
                }
            }
        }
    }
}

proof fn lemma_first_index_unique(names: Seq<Seq<char>>, key: Seq<char>, i: int)
    requires
        0 <= i < names.len(),
        names[i] == key,
        forall|j: int| 0 <= j < i ==> names[j] != key,
    ensures
        first_index(names, key) == Some(i),
{
    lemma_first_index_shape(names, key);
}

proof fn lemma_child_insert(e: ElementView, e2: ElementView, p: int, x: ElementView, key: Seq<char>)
    requires
        0 <= p <= e.children.len(),
        e2.children == e.children.insert(p, x),
        x.name != key,
    ensures
        child(e2, key) == child(e, key),
{
    let names = element_names(e.children);
    let names2 = element_names(e2.children);
    assert(names2 =~= names.insert(p, x.name));
    lemma_first_index_shape(names, key);
    lemma_first_index_shape(names2, key);
    match first_index(names, key) {
        Some(i) => {
            let i2 = if i < p {
                i
            } else {
                i + 1
            };
            assert forall|j: int| 0 <= j < i2 implies names2[j] != key by {
                if j < p {
                    assert(names2[j] == names[j]);
                } else if j > p {
                    assert(names2[j] == names[j - 1]);
                }
            }
            lemma_first_index_unique(names2, key, i2);
        },
        None => {
            if first_index(names2, key) is Some {
                let i2 = first_index(names2, key)->Some_0;
                if i2 < p {
                    assert(names2[i2] == names[i2]);
                } else if i2 > p {
                    assert(names2[i2] == names[i2 - 1]);
                }
            }
        },
    }
}

/// An element of a name that the invoice does not use, added anywhere among
/// the root's children, changes nothing in what is read.
pub proof fn lemma_unknown_child_ignored(e: ElementView, e2: ElementView, p: int, x: ElementView)
    requires
        0 <= p <= e.children.len(),
        e2.attributes == e.attributes,
        e2.children == e.children.insert(p, x),
        x.name != EMISOR@,
        x.name != RECEPTOR@,
        x.name != CONCEPTOS@,
        x.name != COMPLEMENTO@,
    ensures
        comprobante_spec(e2) == comprobante_spec(e),
{
    lemma_child_insert(e, e2, p, x, EMISOR@);
    lemma_child_insert(e, e2, p, x, RECEPTOR@);
    lemma_child_insert(e, e2, p, x, CONCEPTOS@);
    lemma_child_insert(e, e2, p, x, COMPLEMENTO@);
    assert(attr(e2, TOTAL@) == attr(e, TOTAL@));
    assert(attr(e2, SUBTOTAL@) == attr(e, SUBTOTAL@));
    assert(attr(e2, FECHA@) == attr(e, FECHA@));
    assert(attr(e2, TIPO_COMPROBANTE@) == attr(e, TIPO_COMPROBANTE@));
    assert(attr(e2, FORMA_PAGO@) == attr(e, FORMA_PAGO@));
    assert(attr(e2, DESCUENTO@) == attr(e, DESCUENTO@));
}

/// The unit value of a line item is the text of its attribute, as written.
pub proof fn lemma_unit_value_is_text(k: ElementView)
    requires
        concepto_spec(k) is Ok,
    ensures
        attr(k, VALOR_UNITARIO@) == Some(concepto_spec(k)->Ok_0.valor_unitario),
{
}

} // verus!
