use vstd::prelude::*;

verus! {

/// The kinds of node that end a path: a value can be read or written
/// there, and nothing lies below it.
#[derive(Clone, Copy, Debug, PartialEq, Eq, Structural)]
pub enum NodeKind {
    RawRegister,
    CookedRegister,
    ComputedRegister,
    CameraModel,
    Property,
}

/// What a caller set out to do with a node.
#[derive(Clone, Copy, Debug, PartialEq, Eq, Structural)]
pub enum Operation {
    Read,
    Write,
}

/// Why an operation on the tree did not succeed.
#[derive(Clone, Debug, PartialEq, Eq)]
pub enum TreeError {
    /// No child of that name.
    NotFound { segment: String },
    /// The path goes on below a leaf; `segment` is the first segment past it.
    NotADirectory { node: NodeKind, segment: String },
    /// The path names a node on which the operation is not allowed.
    UnsupportedOperation { operation: Operation, target: String },
    /// A read from mock memory at an address without a declared width.
    UnboundedRead,
    /// A numeral of `length` bytes does not fit a register of `width` bytes.
    ValueTooLong { length: usize, width: usize },
    /// The value map has no entry for what was read or is to be written.
    UnmappedValue,
    /// The computed register has no script for the operation.
    MissingScript,
    /// The scripting engine could not compile or run a register's script.
    ScriptError { register: String, message: String },
    /// The text to write is not a numeral.
    InvalidNumeral,
    /// The bytes to write are not text.
    InvalidText,
    /// The hardware behind a channel did not complete a transaction.
    Transaction { message: String },
}

/// An error as contracts speak of it: the same kinds, with the text of
/// each string in place of the string.
pub enum ErrorView {
    NotFound { segment: Seq<char> },
    NotADirectory { node: NodeKind, segment: Seq<char> },
    UnsupportedOperation { operation: Operation, target: Seq<char> },
    UnboundedRead,
    ValueTooLong { length: usize, width: usize },
    UnmappedValue,
    MissingScript,
    ScriptError { register: Seq<char>, message: Seq<char> },
    InvalidNumeral,
    InvalidText,
    Transaction { message: Seq<char> },
}

impl View for TreeError {
    type V = ErrorView;

    open spec fn view(&self) -> ErrorView {
        match *self {
            TreeError::NotFound { segment } => ErrorView::NotFound { segment: segment@ },
            TreeError::NotADirectory { node, segment } => ErrorView::NotADirectory {
                node,
                segment: segment@,
            },
            TreeError::UnsupportedOperation { operation, target } => ErrorView::UnsupportedOperation {
                operation,
                target: target@,
            },
            TreeError::UnboundedRead => ErrorView::UnboundedRead,
            TreeError::ValueTooLong { length, width } => ErrorView::ValueTooLong { length, width },
            TreeError::UnmappedValue => ErrorView::UnmappedValue,
            TreeError::MissingScript => ErrorView::MissingScript,
            TreeError::ScriptError { register, message } => ErrorView::ScriptError {
                register: register@,
                message: message@,
            },
            TreeError::InvalidNumeral => ErrorView::InvalidNumeral,
            TreeError::InvalidText => ErrorView::InvalidText,
            TreeError::Transaction { message } => ErrorView::Transaction { message: message@ },
        }
    }
}

/// Whether `result` is the error `error`.
pub open spec fn fails<T>(result: Result<T, TreeError>, error: ErrorView) -> bool {
    match result {
        Ok(_) => false,
        Err(found) => found@ == error,
    }
}

/// What a read finds at the end of a path.
#[derive(Clone, Debug, PartialEq, Eq)]
pub enum Entry {
    /// A directory, with the names of its children.
    Directory(Vec<String>),
    /// A leaf, with its value as text.
    Leaf(String),
}

/// The texts of a run of strings.
pub open spec fn texts(names: Seq<String>) -> Seq<Seq<char>> {
    Seq::new(names.len(), |i: int| names[i]@)
}

/// Whether `result` is a leaf with the text that `expected` describes, or
/// the error that it describes.
pub open spec fn returns_leaf(
    result: Result<Entry, TreeError>,
    expected: Result<Seq<char>, ErrorView>,
) -> bool {
    match expected {
        Ok(text) => match result {
            Ok(Entry::Leaf(leaf)) => leaf@ == text,
            _ => false,
        },
        Err(error) => fails(result, error),
    }
}

/// Whether `result` is a leaf or an error, and no directory.
pub open spec fn leaf_or_error(result: Result<Entry, TreeError>) -> bool {
    match result {
        Ok(Entry::Directory(_)) => false,
        _ => true,
    }
}

/// Whether `entry` is a directory whose children are called `names`, in
/// that order.
pub open spec fn is_directory(entry: Entry, names: Seq<Seq<char>>) -> bool {
    match entry {
        Entry::Directory(children) => texts(children@) == names,
        Entry::Leaf(_) => false,
    }
}

} // verus!
