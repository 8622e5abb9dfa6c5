use crate::error::{fails, ErrorView, NodeKind, Operation, TreeError};
use crate::scripting::{message, register, registered};
use vstd::prelude::*;

verus! {

/// The type of the value that a computed register stands for.
#[derive(Clone, Copy, Debug, PartialEq, Eq, Structural)]
pub enum ComputedRegisterType {
    Float,
    Int,
    String,
    Binary,
}

/// The bounds within which the value of a register is meant to lie.
#[derive(Clone, Copy, Debug, PartialEq, Eq, Structural)]
pub struct Range {
    pub min: i64,
    pub max: i64,
}

/// What an operation does next with a script.
pub enum ScriptStep {
    /// The script was not compiled yet: compile this text first.
    Compile { source: Seq<char> },
    /// The script was compiled before: call the function that is kept.
    Call,
}

/// The text that is compiled for a getter with body `script`.
pub open spec fn getter_source(script: Seq<char>) -> Seq<char> {
    "function (raw, cooked, computed) "@ + script + " end"@
}

/// The text that is compiled for a setter with body `script`.
pub open spec fn setter_source(script: Seq<char>) -> Seq<char> {
    "function (value, raw, cooked, computed) "@ + script + " end"@
}

/// A register whose value a script computes from the registers of its
/// device, and whose writes a script carries out on them. Each script is
/// compiled when it is first used, and the compiled function is kept
/// from then on.
#[derive(Debug)]
pub struct ComputedRegister {
    pub description: String,
    pub get: Option<String>,
    pub set: Option<String>,
    pub range: Option<Range>,
    pub ty: ComputedRegisterType,
    pub read_function: Option<rlua::RegistryKey>,
    pub write_function: Option<rlua::RegistryKey>,
}

impl ComputedRegister {
    /// Whether `other` is this register but for its compiled functions.
    pub open spec fn same_declaration(&self, other: ComputedRegister) -> bool {
        &&& self.description == other.description
        &&& self.get == other.get
        &&& self.set == other.set
        &&& self.range == other.range
        &&& self.ty == other.ty
    }

    /// What a read does next, for a path that ends at this register.
    pub open spec fn read_step(&self) -> Result<ScriptStep, ErrorView> {
        if self.read_function.is_some() {
            Ok(ScriptStep::Call)
        } else {
            match self.get {
                Some(script) => Ok(ScriptStep::Compile { source: getter_source(script@) }),
                None => Err(ErrorView::MissingScript),
            }
        }
    }

    /// What a write does next, for a path that ends at this register.
    pub open spec fn write_step(&self) -> Result<ScriptStep, ErrorView> {
        if self.write_function.is_some() {
            Ok(ScriptStep::Call)
        } else {
            match self.set {
                Some(script) => Ok(ScriptStep::Compile { source: setter_source(script@) }),
                None => Err(ErrorView::MissingScript),
            }
        }
    }

    /// Whether `error` is a script error that names this register.
    pub open spec fn is_script_error(&self, error: TreeError) -> bool {
        match error {
            TreeError::ScriptError { register, message } => register@ == self.description@,
            _ => false,
        }
    }

    /// A register with the given declaration and no script compiled.
    pub fn new(
        description: String,
        get: Option<String>,
        set: Option<String>,
        range: Option<Range>,
        ty: ComputedRegisterType,
    ) -> (register: ComputedRegister)
        ensures
            register.description == description,
            register.get == get,
            register.set == set,
            register.range == range,
            register.ty == ty,
            register.read_function.is_none(),
            register.write_function.is_none(),
    {
        ComputedRegister {
            description,
            get,
            set,
            range,
            ty,
            read_function: None,
            write_function: None,
        }
    }

    /// The type of the register's value.
    pub fn value_type(&self) -> (ty: ComputedRegisterType)
        ensures
            ty == self.ty,
    {
        self.ty
    }

    /// The text to compile before a read, or `None` where the getter was
    /// compiled before and is called as it is.
    pub fn getter_to_compile(&self) -> (result: Result<Option<String>, TreeError>)
        ensures
            match self.read_step() {
                Ok(ScriptStep::Compile { source }) => result.is_ok() && result.unwrap().is_some()
                    && result.unwrap().unwrap()@ == source,
                Ok(ScriptStep::Call) => result == Ok::<Option<String>, TreeError>(None),
                Err(error) => fails(result, error),
            },
    {
        if self.read_function.is_some() {
            return Ok(None);
        }
        match &self.get {
            Some(script) => {
                let source = String::from_str("function (raw, cooked, computed) ").concat(
                    script.as_str(),
                ).concat(" end");
                Ok(Some(source))
            },
            None => Err(TreeError::MissingScript),
        }
    }

    /// The text to compile before a write, or `None` where the setter was
    /// compiled before and is called as it is.
    pub fn setter_to_compile(&self) -> (result: Result<Option<String>, TreeError>)
        ensures
            match self.write_step() {
                Ok(ScriptStep::Compile { source }) => result.is_ok() && result.unwrap().is_some()
                    && result.unwrap().unwrap()@ == source,
                Ok(ScriptStep::Call) => result == Ok::<Option<String>, TreeError>(None),
                Err(error) => fails(result, error),
            },
    {
        if self.write_function.is_some() {
            return Ok(None);
        }
        match &self.set {
            Some(script) => {
                let source = String::from_str("function (value, raw, cooked, computed) ").concat(
                    script.as_str(),
                ).concat(" end");
                Ok(Some(source))
            },
            None => Err(TreeError::MissingScript),
        }
    }

    fn script_error(&self, error: &rlua::Error) -> (tagged: TreeError)
        ensures
            self.is_script_error(tagged),
    {
        TreeError::ScriptError { register: self.description.clone(), message: message(error) }
    }

    /// Begins a read. The register is a leaf: a path that goes on is
    /// refused. Else the answer is the text to compile before the getter
    /// can be called, or `None` where the getter was compiled before.
    pub fn read_value(&self, path: &[String]) -> (result: Result<Option<String>, TreeError>)
        ensures
            path@.len() > 0 ==> fails(
                result,
                ErrorView::NotADirectory { node: NodeKind::ComputedRegister, segment: path@[0]@ },
            ),
            path@.len() == 0 ==> match self.read_step() {
                Ok(ScriptStep::Compile { source }) => result.is_ok() && result.unwrap().is_some()
                    && result.unwrap().unwrap()@ == source,
                Ok(ScriptStep::Call) => result == Ok::<Option<String>, TreeError>(None),
                Err(error) => fails(result, error),
            },
    {
        if path.len() > 0 {
            return Err(
                TreeError::NotADirectory {
                    node: NodeKind::ComputedRegister,
                    segment: path[0].clone(),
                },
            );
        }
        self.getter_to_compile()
    }

    /// Begins a write. The register is a leaf: a path that goes on is
    /// refused. Else the answer is the text to compile before the setter
    /// can be called, or `None` where the setter was compiled before.
    pub fn write_value(&self, path: &[String]) -> (result: Result<Option<String>, TreeError>)
        ensures
            path@.len() > 0 ==> fails(
                result,
                ErrorView::NotADirectory { node: NodeKind::ComputedRegister, segment: path@[0]@ },
            ),
            path@.len() == 0 ==> match self.write_step() {
                Ok(ScriptStep::Compile { source }) => result.is_ok() && result.unwrap().is_some()
                    && result.unwrap().unwrap()@ == source,
                Ok(ScriptStep::Call) => result == Ok::<Option<String>, TreeError>(None),
                Err(error) => fails(result, error),
            },
    {
        if path.len() > 0 {
            return Err(
                TreeError::NotADirectory {
                    node: NodeKind::ComputedRegister,
                    segment: path[0].clone(),
                },
            );
        }
        self.setter_to_compile()
    }

    /// Takes what the engine made of the getter's text: a key is kept, an
    /// error leaves the register as it was and comes back as a script
    /// error that names this register.
    pub fn keep_getter(&mut self, compiled: Result<rlua::RegistryKey, rlua::Error>) -> (result:
        Result<(), TreeError>)
        requires
            old(self).read_function.is_none(),
        ensures
            final(self).same_declaration(*old(self)),
            final(self).write_function == old(self).write_function,
            match compiled {
                Ok(key) => result.is_ok() && final(self).read_function == Some(key),
                Err(error) => *final(self) == *old(self) && result.is_err() && old(
                    self,
                ).is_script_error(result.unwrap_err()),
            },
    {
        match compiled {
            Ok(key) => {
                self.read_function = Some(key);
                Ok(())
            },
            Err(error) => Err(self.script_error(&error)),
        }
    }

    /// Takes what the engine made of the setter's text: a key is kept, an
    /// error leaves the register as it was and comes back as a script
    /// error that names this register.
    pub fn keep_setter(&mut self, compiled: Result<rlua::RegistryKey, rlua::Error>) -> (result:
        Result<(), TreeError>)
        requires
            old(self).write_function.is_none(),
        ensures
            final(self).same_declaration(*old(self)),
            final(self).read_function == old(self).read_function,
            match compiled {
                Ok(key) => result.is_ok() && final(self).write_function == Some(key),
                Err(error) => *final(self) == *old(self) && result.is_err() && old(
                    self,
                ).is_script_error(result.unwrap_err()),
            },
    {
        match compiled {
            Ok(key) => {
                self.write_function = Some(key);
                Ok(())
            },
            Err(error) => Err(self.script_error(&error)),
        }
    }

    /// Takes the function that the getter's text evaluated to, places it in
    /// the registry of the engine and keeps its key. Where the text did
    /// not evaluate, or the engine does not take the function, the
    /// register stays as it was.
    pub fn store_getter<'lua>(
        &mut self,
        ctx: rlua::Context<'lua>,
        evaluated: Result<rlua::Function<'lua>, rlua::Error>,
    ) -> (result: Result<(), TreeError>)
        requires
            old(self).read_function.is_none(),
        ensures
            final(self).same_declaration(*old(self)),
            final(self).write_function == old(self).write_function,
            result.is_ok() <==> final(self).read_function.is_some(),
            evaluated.is_err() ==> result.is_err(),
            result.is_err() ==> *final(self) == *old(self) && old(self).is_script_error(
                result.unwrap_err(),
            ),
    {
        match evaluated {
            Ok(function) => self.keep_getter(register(ctx, function)),
            Err(error) => self.keep_getter(Err(error)),
        }
    }

    /// Takes the function that the setter's text evaluated to, places it in
    /// the registry of the engine and keeps its key. Where the text did
    /// not evaluate, or the engine does not take the function, the
    /// register stays as it was.
    pub fn store_setter<'lua>(
        &mut self,
        ctx: rlua::Context<'lua>,
        evaluated: Result<rlua::Function<'lua>, rlua::Error>,
    ) -> (result: Result<(), TreeError>)
        requires
            old(self).write_function.is_none(),
        ensures
            final(self).same_declaration(*old(self)),
            final(self).read_function == old(self).read_function,
            result.is_ok() <==> final(self).write_function.is_some(),
            evaluated.is_err() ==> result.is_err(),
            result.is_err() ==> *final(self) == *old(self) && old(self).is_script_error(
                result.unwrap_err(),
            ),
    {
        match evaluated {
            Ok(function) => self.keep_setter(register(ctx, function)),
            Err(error) => self.keep_setter(Err(error)),
        }
    }

    /// The compiled getter, from the registry of the engine. An engine
    /// that does not know the key is answered with a script error that
    /// names this register.
    pub fn getter<'lua>(&self, ctx: rlua::Context<'lua>) -> (result: Result<
        rlua::Function<'lua>,
        TreeError,
    >)
        requires
            self.read_function.is_some(),
        ensures
            result.is_err() ==> self.is_script_error(result.unwrap_err()),
    {
        match &self.read_function {
            Some(key) => self.returned(registered(ctx, key)),
            None => unreached(),
        }
    }

    /// The compiled setter, from the registry of the engine. An engine
    /// that does not know the key is answered with a script error that
    /// names this register.
    pub fn setter<'lua>(&self, ctx: rlua::Context<'lua>) -> (result: Result<
        rlua::Function<'lua>,
        TreeError,
    >)
        requires
            self.write_function.is_some(),
        ensures
            result.is_err() ==> self.is_script_error(result.unwrap_err()),
    {
        match &self.write_function {
            Some(key) => self.returned(registered(ctx, key)),
            None => unreached(),
        }
    }

    /// Takes what the engine returned: a value as it is, an error as a
    /// script error that names this register.
    pub fn returned<T>(&self, outcome: Result<T, rlua::Error>) -> (result: Result<T, TreeError>)
        ensures
            match outcome {
                Ok(value) => result == Ok::<T, TreeError>(value),
                Err(error) => match result {
                    Ok(_) => false,
                    Err(tagged) => self.is_script_error(tagged),
                },
            },
    {
        match outcome {
            Ok(value) => Ok(value),
            Err(error) => Err(self.script_error(&error)),
        }
    }
}

/// Which tables a script gets: a write may change the registers of the
/// device through them, a read may not.
pub fn tables_writable(operation: Operation) -> (writable: bool)
    ensures
        writable == (operation == Operation::Write),
{
    match operation {
        Operation::Read => false,
        Operation::Write => true,
    }
}

/// A script is compiled once: where a register keeps the compiled form
/// of a script, as it does once the engine has compiled it, the next
/// operation of that kind hands out no text to compile: it calls the
/// function that is kept.
pub proof fn lemma_compiled_script_is_called(register: ComputedRegister)
    ensures
        register.read_function.is_some() ==> register.read_step() == Ok::<ScriptStep, ErrorView>(
            ScriptStep::Call,
        ),
        register.write_function.is_some() ==> register.write_step() == Ok::<ScriptStep, ErrorView>(
            ScriptStep::Call,
        ),
{
}

} // verus!
