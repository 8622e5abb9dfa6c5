use vstd::prelude::*;

verus! {

/// `rlua::Context`: the engine, for as long as one call into it lasts.
#[verifier::external_type_specification]
#[verifier::external_body]
pub struct ExContext<'lua>(rlua::Context<'lua>);

/// `rlua::Function`: a function of the engine.
#[verifier::external_type_specification]
#[verifier::external_body]
pub struct ExFunction<'lua>(rlua::Function<'lua>);

/// `rlua::RegistryKey`: the key under which the engine keeps a value.
#[verifier::external_type_specification]
#[verifier::external_body]
pub struct ExRegistryKey(rlua::RegistryKey);

/// `rlua::Error`: why the engine did not do what it was asked.
#[verifier::external_type_specification]
#[verifier::external_body]
pub struct ExError(rlua::Error);

/// `rlua::Context::create_registry_value`: places a function in the
/// registry of the engine, to be found again by the key that is returned.
/// Nothing is claimed of the outcome.
#[verifier::external_body]
pub(crate) fn register<'lua>(ctx: rlua::Context<'lua>, function: rlua::Function<'lua>) -> (key:
    Result<rlua::RegistryKey, rlua::Error>) {
    ctx.create_registry_value(function)
}

/// `rlua::Context::registry_value`: the function that was placed in the
/// registry under `key`. Nothing is claimed of the outcome: a key of
/// another engine is answered with an error.
#[verifier::external_body]
pub(crate) fn registered<'lua>(ctx: rlua::Context<'lua>, key: &rlua::RegistryKey) -> (function:
    Result<rlua::Function<'lua>, rlua::Error>) {
    ctx.registry_value::<rlua::Function>(key)
}

/// The `Display` form of an `rlua::Error`, as the message of an error of
/// this library. Nothing is claimed of the text.
#[verifier::external_body]
pub(crate) fn message(error: &rlua::Error) -> (text: String) {
    error.to_string()
}

} // verus!
