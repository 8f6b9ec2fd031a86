//! An OpenDAL operator together with a record of what it was built from and which layers
//! wrap it. The record can only be made by the calls that build and wrap the operator.
use crate::remote::LayerSpec;
use crate::services::ServiceKind;
use std::collections::BTreeMap;
use vstd::prelude::*;

verus! {

/// The service kind and option map that an operator was asked to be built from.
pub type ServiceRecord = (ServiceKind, Map<Seq<char>, Seq<char>>);

/// An OpenDAL operator, with the service it was built for and the layers it was wrapped in,
/// innermost first.
pub struct LayeredOperator {
    op: opendal::Operator,
    source: Ghost<ServiceRecord>,
    layers: Ghost<Seq<LayerSpec>>,
}

impl LayeredOperator {
    /// The operator itself.
    pub closed spec fn inner(&self) -> opendal::Operator {
        self.op
    }

    /// The service kind and options the operator was built from.
    pub closed spec fn source(&self) -> ServiceRecord {
        self.source@
    }

    /// The layers the operator was wrapped in, innermost first.
    pub closed spec fn layers(&self) -> Seq<LayerSpec> {
        self.layers@
    }

    /// The operator itself.
    pub fn operator(&self) -> (res: &opendal::Operator)
        ensures
            *res == self.inner(),
    {
        &self.op
    }
}

/// Calls `opendal::Operator::via_iter` with the OpenDAL scheme of `kind` and the option
/// names and values in `settings`; a built operator is recorded as built from `kind` and
/// `settings`, with no layer yet. Nothing is promised of the operator itself or of when the
/// call fails: that rests on the service's own builder.
#[verifier::external_body]
pub(crate) fn build_operator(kind: ServiceKind, settings: BTreeMap<String, String>) -> (res:
    Result<LayeredOperator, opendal::Error>)
    ensures
        match res {
            Ok(built) => built.source() == (kind, settings.deep_view()) && built.layers() == Seq::<LayerSpec>::empty(),
            Err(_) => true,
        },
{
    let source = Ghost((kind, settings.deep_view()));
    let scheme = match kind {
        ServiceKind::Ftp => opendal::Scheme::Ftp,
        ServiceKind::Gdrive => opendal::Scheme::Gdrive,
        ServiceKind::S3 => opendal::Scheme::S3,
    };
    let op = opendal::Operator::via_iter(scheme, settings)?;
    Ok(LayeredOperator { op, source, layers: Ghost(Seq::empty()) })
}

/// Calls `opendal::Operator::layer` with `opendal::layers::ThrottleLayer::new(bandwidth,
/// burst)`, which panics on a zero bandwidth or burst; the record gains that layer.
#[verifier::external_body]
pub(crate) fn add_throttle(l: LayeredOperator, bandwidth: u32, burst: u32) -> (res: LayeredOperator)
    requires
        bandwidth > 0,
        burst > 0,
    ensures
        res.source() == l.source(),
        res.layers() == l.layers().push(LayerSpec::Throttle { bandwidth, burst }),
{
    let op = l.op.layer(opendal::layers::ThrottleLayer::new(bandwidth, burst));
    LayeredOperator { op, source: l.source, layers: Ghost(l.layers@.push(LayerSpec::Throttle { bandwidth, burst })) }
}

/// Calls `opendal::Operator::layer` with `opendal::layers::ConcurrentLimitLayer::new(permits)`,
/// whose semaphore panics above `usize::MAX >> 3` permits; the record gains that layer.
#[verifier::external_body]
pub(crate) fn add_concurrent_limit(l: LayeredOperator, permits: usize) -> (res: LayeredOperator)
    requires
        permits <= usize::MAX / 8,
    ensures
        res.source() == l.source(),
        res.layers() == l.layers().push(LayerSpec::ConcurrentLimit(permits)),
{
    let op = l.op.layer(opendal::layers::ConcurrentLimitLayer::new(permits));
    LayeredOperator { op, source: l.source, layers: Ghost(l.layers@.push(LayerSpec::ConcurrentLimit(permits))) }
}

/// Calls `opendal::Operator::layer` with the default `opendal::layers::LoggingLayer`; the
/// record gains that layer.
#[verifier::external_body]
pub(crate) fn add_logging(l: LayeredOperator) -> (res: LayeredOperator)
    ensures
        res.source() == l.source(),
        res.layers() == l.layers().push(LayerSpec::Logging),
{
    let op = l.op.layer(opendal::layers::LoggingLayer::default());
    LayeredOperator { op, source: l.source, layers: Ghost(l.layers@.push(LayerSpec::Logging)) }
}

/// Calls `opendal::Operator::clone`; the copy keeps the record. Nothing is promised of the
/// copied operator itself.
#[verifier::external_body]
pub(crate) fn clone_layered(l: &LayeredOperator) -> (res: LayeredOperator)
    ensures
        res.source() == l.source(),
        res.layers() == l.layers(),
{
    LayeredOperator { op: l.op.clone(), source: l.source, layers: l.layers }
}

} // verus!
