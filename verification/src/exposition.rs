//! The metrics side of the service: a snapshot of the process-wide metrics
//! registry and its rendering in the plaintext exposition format, both done
//! by the `prometheus` crate behind trusted wrappers. The text encoder aborts
//! on a family of the untyped metric type that holds a metric, so a trusted
//! predicate screens the snapshot first and the encoder is only called on
//! families it accepts. What came out of the wrappers is turned into a
//! response by verified code in `service`.

use vstd::prelude::*;

verus! {

#[verifier::external_type_specification]
#[verifier::external_body]
pub struct ExMetricFamily(prometheus::proto::MetricFamily);

/// Whether the plaintext encoder accepts every family: none of them both has
/// the untyped metric type and holds a metric (the one shape the encoder
/// aborts on instead of returning an error).
pub uninterp spec fn text_encodable(families: Seq<prometheus::proto::MetricFamily>) -> bool;

/// The plaintext exposition of `families`: what the text encoder returns for
/// them, a function of the families alone — their UTF-8 rendering, or an
/// error where the encoder refuses a family.
pub uninterp spec fn exposition_of(families: Seq<prometheus::proto::MetricFamily>) -> Result<
    Seq<u8>,
    (),
>;

/// Relies on `prometheus::gather`: a snapshot of the metric families
/// registered with the default registry. The snapshot depends on the
/// process-wide registry state, so nothing is promised of it.
#[verifier::external_body]
pub(crate) fn gather_families() -> (r: Vec<prometheus::proto::MetricFamily>) {
    prometheus::gather()
}

/// Relies on `MetricFamily::get_field_type` and `MetricFamily::get_metric`:
/// whether no family both has the untyped type and holds a metric, which is
/// exactly the condition under which the text encoder runs to completion.
#[verifier::external_body]
pub(crate) fn check_encodable(families: &Vec<prometheus::proto::MetricFamily>) -> (r: bool)
    ensures
        r == text_encodable(families@),
{
    for f in families.iter() {
        let untyped = f.get_field_type() == prometheus::proto::MetricType::UNTYPED;
        if untyped && !f.get_metric().is_empty() {
            return false;
        }
    }
    true
}

/// Relies on `prometheus::TextEncoder::encode_to_string`: the families
/// rendered in the plaintext exposition format, as UTF-8 bytes, a function of
/// the families alone, or an error where the encoder refuses one (a family
/// with no metrics or no name). On an untyped family that holds a metric the
/// encoder aborts instead of returning, so `requires` keeps those out.
#[verifier::external_body]
pub(crate) fn encode_families(families: &Vec<prometheus::proto::MetricFamily>) -> (r: Result<
    Vec<u8>,
    (),
>)
    requires
        text_encodable(families@),
    ensures
        (r matches Ok(t) ==> exposition_of(families@) == Ok::<Seq<u8>, ()>(t@)),
        (r is Err ==> exposition_of(families@) is Err),
{
    match prometheus::TextEncoder::new().encode_to_string(families) {
        Ok(s) => Ok(s.into_bytes()),
        Err(_) => Err(()),
    }
}

} // verus!
