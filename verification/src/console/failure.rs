//! Why a scene operation failed, and the sentence the console shows for it.
use vstd::prelude::*;
use wasserxr::error::{ComponentError, PluginError, SceneError};

verus! {

/// The sentence for a plugin failure.
pub open spec fn plugin_failure_text(e: PluginError) -> Seq<char> {
    match e {
        PluginError::LinkingError(message) => "linking failed: "@ + message@,
        PluginError::MissingSymbol(symbol) => "the plugin is missing required symbol `"@
            + symbol@ + "`"@,
        PluginError::InvalidSymbol => "a symbol name contains an invalid null byte"@,
        PluginError::NotFound => "Unknown Error"@,
    }
}

/// The sentence for a component failure.
pub open spec fn component_failure_text(e: ComponentError) -> Seq<char> {
    match e {
        ComponentError::FieldNotFound => "the field was not found on this component"@,
        ComponentError::FieldNoGetter => "the field cannot be read because it has no getter"@,
        ComponentError::FieldNotMutable => "the field is read-only"@,
        ComponentError::FieldNoSerializer =>
            "the field cannot be serialized because it has no serializer"@,
        ComponentError::FieldNoDeserializer =>
            "the field cannot be deserialized because it has no deserializer"@,
        ComponentError::NoCreator(p) => "the component creator is unavailable: "@
            + plugin_failure_text(p),
        ComponentError::NoDestroyer(p) => "the component destroyer is unavailable: "@
            + plugin_failure_text(p),
        ComponentError::FieldParsing => "the requested field list is invalid"@,
        ComponentError::FieldValueParsing =>
            "the entered value is not valid for this field type"@,
    }
}

/// The sentence the console shows for a failed scene operation.
pub open spec fn scene_failure_text(e: SceneError) -> Seq<char> {
    match e {
        SceneError::EntityNotFound => "the entity no longer exists"@,
        SceneError::ComponentAlreadyExists =>
            "a component with that name already exists on this entity"@,
        SceneError::SystemAlreadyExists => "a system with that name already exists"@,
        SceneError::PluginAlreadyLoaded => "the plugin is already loaded"@,
        SceneError::SystemNotFound => "the system was not found"@,
        SceneError::PluginNotFound => "the plugin was not found"@,
        SceneError::StaticPluginUnload => "the built-in static plugin cannot be unloaded"@,
        SceneError::ComponentNotFound => "the component was not found on this entity"@,
        SceneError::ComponentFieldError(c) => component_failure_text(c),
        SceneError::PluginLoading(p) => plugin_failure_text(p),
        SceneError::SystemCreation =>
            "no loaded plugin could create that system; check the system name and exports"@,
        SceneError::ComponentCreation =>
            "no loaded plugin could create that component; check the component name and exports"@,
        SceneError::Serialization(message) => "scene serialization failed: "@ + message@,
        SceneError::Deserialization(message) => "scene deserialization failed: "@ + message@,
        SceneError::FileIo(message) => "file operation failed: "@ + message@,
        _ => "Unknown Error"@,
    }
}

/// `prefix` followed by `rest`.
fn joined(prefix: &str, rest: &str) -> (r: String)
    ensures
        r@ == prefix@ + rest@,
{
    let mut s = String::from_str(prefix);
    s.append(rest);
    s
}

/// The sentence for a plugin failure.
pub fn plugin_error_reason(error: &PluginError) -> (r: String)
    ensures
        r@ == plugin_failure_text(*error),
{
    match error {
        PluginError::LinkingError(message) => joined("linking failed: ", message.as_str()),
        PluginError::MissingSymbol(symbol) => {
            let mut s = joined("the plugin is missing required symbol `", symbol.as_str());
            s.append("`");
            s
        },
        PluginError::InvalidSymbol => String::from_str(
            "a symbol name contains an invalid null byte",
        ),
        PluginError::NotFound => String::from_str("Unknown Error"),
    }
}

/// The sentence for a component failure.
pub fn component_error_reason(error: &ComponentError) -> (r: String)
    ensures
        r@ == component_failure_text(*error),
{
    match error {
        ComponentError::FieldNotFound => String::from_str(
            "the field was not found on this component",
        ),
        ComponentError::FieldNoGetter => String::from_str(
            "the field cannot be read because it has no getter",
        ),
        ComponentError::FieldNotMutable => String::from_str("the field is read-only"),
        ComponentError::FieldNoSerializer => String::from_str(
            "the field cannot be serialized because it has no serializer",
        ),
        ComponentError::FieldNoDeserializer => String::from_str(
            "the field cannot be deserialized because it has no deserializer",
        ),
        ComponentError::NoCreator(p) => {
            let reason = plugin_error_reason(p);
            joined("the component creator is unavailable: ", reason.as_str())
        },
        ComponentError::NoDestroyer(p) => {
            let reason = plugin_error_reason(p);
            joined("the component destroyer is unavailable: ", reason.as_str())
        },
        ComponentError::FieldParsing => String::from_str("the requested field list is invalid"),
        ComponentError::FieldValueParsing => String::from_str(
            "the entered value is not valid for this field type",
        ),
    }
}

/// The sentence the console shows for a failed scene operation.
pub fn scene_error_message(error: &SceneError) -> (r: String)
    ensures
        r@ == scene_failure_text(*error),
{
    match error {
        SceneError::EntityNotFound => String::from_str("the entity no longer exists"),
        SceneError::ComponentAlreadyExists => String::from_str(
            "a component with that name already exists on this entity",
        ),
        SceneError::SystemAlreadyExists => String::from_str(
            "a system with that name already exists",
        ),
        SceneError::PluginAlreadyLoaded => String::from_str("the plugin is already loaded"),
        SceneError::SystemNotFound => String::from_str("the system was not found"),
        SceneError::PluginNotFound => String::from_str("the plugin was not found"),
        SceneError::StaticPluginUnload => String::from_str(
            "the built-in static plugin cannot be unloaded",
        ),
        SceneError::ComponentNotFound => String::from_str(
            "the component was not found on this entity",
        ),
        SceneError::ComponentFieldError(c) => component_error_reason(c),
        SceneError::PluginLoading(p) => plugin_error_reason(p),
        SceneError::SystemCreation => String::from_str(
            "no loaded plugin could create that system; check the system name and exports",
        ),
        SceneError::ComponentCreation => String::from_str(
            "no loaded plugin could create that component; check the component name and exports",
        ),
        SceneError::Serialization(message) => joined(
            "scene serialization failed: ",
            message.as_str(),
        ),
        SceneError::Deserialization(message) => joined(
            "scene deserialization failed: ",
            message.as_str(),
        ),
        SceneError::FileIo(message) => joined("file operation failed: ", message.as_str()),
        _ => String::from_str("Unknown Error"),
    }
}

} // verus!
