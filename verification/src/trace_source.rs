//! Reading the metadata and the field values that `tracing` hands to a
//! subscriber.
use crate::fields::HashMapFieldCollector;
use crate::subscriber::{Level, RecordedMetadata};
use tracing::field::Field;
use tracing::span::Attributes;
use tracing::{Event, Metadata};
use vstd::prelude::*;

verus! {

/// The attributes with which `tracing` creates a span.
#[verifier::external_type_specification]
#[verifier::external_body]
pub struct ExAttributes<'a>(Attributes<'a>);

/// An event that `tracing` hands to a subscriber.
#[verifier::external_type_specification]
#[verifier::external_body]
pub struct ExEvent<'a>(Event<'a>);

/// The metadata of a `tracing` callsite.
#[verifier::external_type_specification]
#[verifier::external_body]
pub struct ExMetadata<'a>(Metadata<'a>);

/// The name in `tracing` metadata, through `Metadata::name`.
#[verifier::external_body]
fn metadata_name(metadata: &Metadata<'static>) -> String {
    metadata.name().to_string()
}

/// The level in `tracing` metadata, through `Metadata::level`; its five
/// values map to the five levels of the same name.
#[verifier::external_body]
fn metadata_level(metadata: &Metadata<'static>) -> Level {
    match *metadata.level() {
        tracing::Level::TRACE => Level::Trace,
        tracing::Level::DEBUG => Level::Debug,
        tracing::Level::INFO => Level::Info,
        tracing::Level::WARN => Level::Warn,
        _ => Level::Error,
    }
}

/// The metadata of a span's attributes, through `Attributes::metadata`.
#[verifier::external_body]
fn span_metadata(attributes: &Attributes) -> &'static Metadata<'static> {
    attributes.metadata()
}

/// The metadata of an event, through `Event::metadata`.
#[verifier::external_body]
fn event_callsite_metadata(event: &Event) -> &'static Metadata<'static> {
    event.metadata()
}

/// What a subscriber keeps of `tracing` metadata: its name and its level.
fn recorded_metadata(metadata: &Metadata<'static>) -> RecordedMetadata {
    RecordedMetadata::new(metadata_name(metadata), metadata_level(metadata))
}

/// What a subscriber keeps of the metadata of a span's attributes.
pub(crate) fn attributes_metadata(attributes: &Attributes) -> RecordedMetadata {
    recorded_metadata(span_metadata(attributes))
}

/// What a subscriber keeps of the metadata of an event.
pub(crate) fn event_metadata(event: &Event) -> RecordedMetadata {
    recorded_metadata(event_callsite_metadata(event))
}

/// Hands each field of a span's attributes to `collector`, through
/// `Attributes::record`: the field's name with its value written by its
/// `Debug` form.
#[verifier::external_body]
pub(crate) fn record_attributes_fields(attributes: &Attributes, collector: &mut HashMapFieldCollector) {
    attributes.record(
        &mut |field: &Field, value: &dyn std::fmt::Debug|
            collector.record_field(field.name(), format!("{value:?}")),
    );
}

/// Hands each field of an event to `collector`, through `Event::record`:
/// the field's name with its value written by its `Debug` form.
#[verifier::external_body]
pub(crate) fn record_event_fields(event: &Event, collector: &mut HashMapFieldCollector) {
    event.record(
        &mut |field: &Field, value: &dyn std::fmt::Debug|
            collector.record_field(field.name(), format!("{value:?}")),
    );
}

} // verus!
