//! Query sets: the request and the rules it is held to.

use crate::device::{Device, DeviceError, MissingFeatures};
use crate::flags::Features;
use crate::limits::QUERY_SET_MAX_QUERIES;
use crate::storage::ResourceInfo;
use vstd::prelude::*;

verus! {

/// What the queries of a set count.
#[derive(Clone, Copy, Debug, PartialEq, Eq, Structural)]
pub enum QueryType {
    /// Whether any sample passed the tests.
    Occlusion,
    /// When a command was reached.
    Timestamp,
    /// How often the stages of the pipeline ran; which of them, as bits.
    PipelineStatistics(u8),
}

/// A request for a query set.
#[derive(Debug, PartialEq, Eq)]
pub struct QuerySetDescriptor {
    pub label: Option<String>,
    pub ty: QueryType,
    /// The number of queries in the set.
    pub count: u32,
}

/// Why a request for a query set was turned down.
#[derive(Clone, Copy, Debug, PartialEq, Eq, Structural)]
pub enum CreateQuerySetError {
    Device(DeviceError),
    ZeroCount,
    TooManyQueries { count: u32, maximum: u32 },
    MissingFeatures(MissingFeatures),
}

/// A query set that was created. `R` is the handle of the hardware query set.
#[derive(Debug, PartialEq, Eq)]
pub struct QuerySet<R> {
    /// The hardware query set; gone once the set has been destroyed.
    pub raw: Option<R>,
    pub info: ResourceInfo,
    pub ty: QueryType,
    pub count: u32,
}

impl Device {
    /// The rules a request for a query set is held to, in the order in which they are
    /// tried: timestamps and pipeline statistics each take a feature; and the set holds
    /// at least one query, and no more than a set can hold.
    pub open spec fn spec_create_query_set(&self, desc: &QuerySetDescriptor) -> Result<
        (),
        CreateQuerySetError,
    > {
        if desc.ty == QueryType::Timestamp && !self.features.contains(Features::TIMESTAMP_QUERY) {
            Err(
                CreateQuerySetError::MissingFeatures(
                    MissingFeatures(Features { bits: Features::TIMESTAMP_QUERY }),
                ),
            )
        } else if desc.ty is PipelineStatistics && !self.features.contains(
            Features::PIPELINE_STATISTICS_QUERY,
        ) {
            Err(
                CreateQuerySetError::MissingFeatures(
                    MissingFeatures(Features { bits: Features::PIPELINE_STATISTICS_QUERY }),
                ),
            )
        } else if desc.count == 0 {
            Err(CreateQuerySetError::ZeroCount)
        } else if desc.count > QUERY_SET_MAX_QUERIES {
            Err(
                CreateQuerySetError::TooManyQueries {
                    count: desc.count,
                    maximum: QUERY_SET_MAX_QUERIES,
                },
            )
        } else {
            Ok(())
        }
    }

    /// Checks a request for a query set. If it passes, the hardware is asked for a
    /// query set of the kind and the size of the request.
    ///
    /// Nothing has been asked of the hardware when this returns.
    pub fn create_query_set(&self, desc: &QuerySetDescriptor) -> (r: Result<
        (),
        CreateQuerySetError,
    >)
        ensures
            r == self.spec_create_query_set(desc),
    {
        match desc.ty {
            QueryType::Occlusion => {},
            QueryType::Timestamp => {
                match self.require_features(Features::TIMESTAMP_QUERY) {
                    Ok(()) => {},
                    Err(missing) => {
                        return Err(CreateQuerySetError::MissingFeatures(missing));
                    },
                }
            },
            QueryType::PipelineStatistics(_) => {
                match self.require_features(Features::PIPELINE_STATISTICS_QUERY) {
                    Ok(()) => {},
                    Err(missing) => {
                        return Err(CreateQuerySetError::MissingFeatures(missing));
                    },
                }
            },
        }
        if desc.count == 0 {
            return Err(CreateQuerySetError::ZeroCount);
        }
        if desc.count > QUERY_SET_MAX_QUERIES {
            return Err(
                CreateQuerySetError::TooManyQueries {
                    count: desc.count,
                    maximum: QUERY_SET_MAX_QUERIES,
                },
            );
        }
        Ok(())
    }
}

/// The record of the query set that the hardware made for `desc`, or the failure of the
/// hardware to make one.
pub fn create_query_set_from_hal<R>(desc: &QuerySetDescriptor, raw: Result<R, DeviceError>) -> (r:
    Result<QuerySet<R>, CreateQuerySetError>)
    ensures
        match raw {
            Err(e) => r == Err::<QuerySet<R>, CreateQuerySetError>(CreateQuerySetError::Device(e)),
            Ok(handle) => r matches Ok(set) && {
                &&& set.raw == Some(handle)
                &&& set.ty == desc.ty
                &&& set.count == desc.count
                &&& set.info.id is None
            },
        },
{
    match raw {
        Err(e) => Err(CreateQuerySetError::Device(e)),
        Ok(handle) => Ok(
            QuerySet {
                raw: Some(handle),
                info: ResourceInfo::new(String::new()),
                ty: desc.ty,
                count: desc.count,
            },
        ),
    }
}

/// A query set that is created holds between one query and as many as a set can hold.
pub proof fn lemma_query_set_size(device: Device, desc: QuerySetDescriptor)
    ensures
        device.spec_create_query_set(&desc) is Ok ==> 0 < desc.count <= QUERY_SET_MAX_QUERIES,
{
}

} // verus!
