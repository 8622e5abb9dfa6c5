use crate::communication_channel::mock_memory::{seeded, stored, MockMemory};
use crate::communication_channel::{Bus, CommunicationChannel};
use crate::error::{fails, is_directory, texts, Entry, ErrorView, NodeKind, Operation, TreeError};
use crate::names::NameMap;
use crate::registers::computed_register::ComputedRegister;
use crate::registers::cooked_register::CookedRegister;
use crate::registers::raw_register::RawRegister;
use crate::written::Written;
use vstd::prelude::*;
use vstd::slice::slice_subrange;

verus! {

/// What a path reaches in a device.
pub enum Node {
    /// The device itself.
    Root,
    /// The directory of the registers of one kind.
    Registers(NodeKind),
    /// The register of that kind at `index`; `rest` is what the path
    /// holds beyond the register's name.
    Register { kind: NodeKind, index: int, rest: Seq<Seq<char>> },
}

/// What `locate` found: a `Node`, with the rest of the path left out.
#[derive(Clone, Copy, Debug, PartialEq, Eq)]
pub enum Located {
    Root,
    Registers(NodeKind),
    Register { kind: NodeKind, index: usize },
}

/// The answer of a device to a read or a write: either the operation was
/// carried out, or the path ends at a computed register, whose script the
/// caller runs.
#[derive(Clone, Debug, PartialEq, Eq)]
pub enum Reached<T> {
    Done(T),
    Computed { register: String },
}

/// What a read returns.
pub enum Reading {
    Directory(Seq<Seq<char>>),
    Leaf(Seq<char>),
    Computed { register: Seq<char> },
}

/// What a write brings about.
pub enum Effect {
    /// The write was carried out; the mock memory holds this now.
    Stored(Map<int, u8>),
    /// The write ends at a computed register.
    Computed { register: Seq<char> },
}

/// The kind of register that a directory of a device holds.
pub open spec fn register_kind(segment: Seq<char>) -> Option<NodeKind> {
    if segment == "raw"@ {
        Some(NodeKind::RawRegister)
    } else if segment == "cooked"@ {
        Some(NodeKind::CookedRegister)
    } else if segment == "computed"@ {
        Some(NodeKind::ComputedRegister)
    } else {
        None
    }
}

/// The names of the directories of a device.
pub open spec fn register_kinds() -> Seq<Seq<char>> {
    seq!["raw"@, "cooked"@, "computed"@]
}

/// Whether `result` is what `expected` describes.
pub open spec fn locates(result: Result<Located, TreeError>, expected: Result<Node, ErrorView>) -> bool {
    match expected {
        Ok(Node::Root) => result == Ok::<Located, TreeError>(Located::Root),
        Ok(Node::Registers(kind)) => result == Ok::<Located, TreeError>(Located::Registers(kind)),
        Ok(Node::Register { kind, index, rest }) => match result {
            Ok(Located::Register { kind: found_kind, index: found }) => found_kind == kind && found
                == index,
            _ => false,
        },
        Err(error) => fails(result, error),
    }
}

/// Whether `result` is what `expected` describes.
pub open spec fn reads(result: Result<Reached<Entry>, TreeError>, expected: Result<
    Reading,
    ErrorView,
>) -> bool {
    match expected {
        Ok(Reading::Directory(names)) => match result {
            Ok(Reached::Done(entry)) => is_directory(entry, names),
            _ => false,
        },
        Ok(Reading::Leaf(text)) => match result {
            Ok(Reached::Done(Entry::Leaf(leaf))) => leaf@ == text,
            _ => false,
        },
        Ok(Reading::Computed { register }) => match result {
            Ok(Reached::Computed { register: found }) => found@ == register,
            _ => false,
        },
        Err(error) => fails(result, error),
    }
}

/// Whether `result`, with `after` in mock memory where `before` was, is
/// what `expected` describes.
pub open spec fn writes(
    result: Result<Reached<()>, TreeError>,
    before: Map<int, u8>,
    after: Map<int, u8>,
    expected: Result<Effect, ErrorView>,
) -> bool {
    match expected {
        Ok(Effect::Stored(store)) => result == Ok::<Reached<()>, TreeError>(Reached::Done(()))
            && after == store,
        Ok(Effect::Computed { register }) => after == before && match result {
            Ok(Reached::Computed { register: found }) => found@ == register,
            _ => false,
        },
        Err(error) => fails(result, error) && after == before,
    }
}

/// The texts of a part of a path are that part of the texts of the path.
pub proof fn lemma_texts_subrange(path: Seq<String>, from: int, to: int)
    requires
        0 <= from <= to <= path.len(),
    ensures
        texts(path.subrange(from, to)) == texts(path).subrange(from, to),
{
    assert(texts(path.subrange(from, to)) =~= texts(path).subrange(from, to));
}

/// Whether `segment` is the text `text`.
pub fn segment_is(segment: &String, text: &str) -> (same: bool)
    ensures
        same == (segment@ == text@),
{
    *segment == String::from_str(text)
}

/// A copy of the segments of a path.
pub fn owned(path: &[String]) -> (copy: Vec<String>)
    ensures
        copy@ == path@,
{
    let mut copy: Vec<String> = Vec::new();
    let mut i: usize = 0;
    while i < path.len()
        invariant
            i <= path.len(),
            copy@ == path@.subrange(0, i as int),
        decreases path.len() - i,
    {
        copy.push(path[i].clone());
        assert(copy@ =~= path@.subrange(0, i + 1));
        i += 1;
    }
    assert(path@.subrange(0, path@.len() as int) =~= path@);
    copy
}

/// One device of the camera: its registers by kind and name, and the
/// channel that leads to them.
#[derive(Debug)]
pub struct Device<B: Bus> {
    pub raw: NameMap<RawRegister>,
    pub cooked: NameMap<CookedRegister>,
    pub computed: NameMap<ComputedRegister>,
    pub channel: CommunicationChannel<B>,
}

impl<B: Bus> Device<B> {
    /// Where the register of `kind` called `name` stands.
    pub open spec fn position_of(&self, kind: NodeKind, name: Seq<char>) -> Option<int> {
        match kind {
            NodeKind::RawRegister => self.raw.position(name),
            NodeKind::CookedRegister => self.cooked.position(name),
            _ => self.computed.position(name),
        }
    }

    /// The names of the registers of `kind`.
    pub open spec fn names_of(&self, kind: NodeKind) -> Seq<Seq<char>> {
        match kind {
            NodeKind::RawRegister => self.raw.names(),
            NodeKind::CookedRegister => self.cooked.names(),
            _ => self.computed.names(),
        }
    }

    /// What `path` reaches: the first segment names a kind of register,
    /// the second a register of that kind.
    pub open spec fn route(&self, path: Seq<Seq<char>>) -> Result<Node, ErrorView> {
        if path.len() == 0 {
            Ok(Node::Root)
        } else {
            match register_kind(path[0]) {
                None => Err(ErrorView::NotFound { segment: path[0] }),
                Some(kind) => if path.len() == 1 {
                    Ok(Node::Registers(kind))
                } else {
                    match self.position_of(kind, path[1]) {
                        Some(index) => Ok(
                            Node::Register {
                                kind,
                                index,
                                rest: path.subrange(2, path.len() as int),
                            },
                        ),
                        None => Err(ErrorView::NotFound { segment: path[1] }),
                    }
                },
            }
        }
    }

    /// Whether `path` ends at a directory.
    pub open spec fn dir_at(&self, path: Seq<Seq<char>>) -> Result<bool, ErrorView> {
        match self.route(path) {
            Ok(Node::Register { kind, index, rest }) => if rest.len() == 0 {
                Ok(false)
            } else {
                Err(ErrorView::NotADirectory { node: kind, segment: rest[0] })
            },
            Ok(_) => Ok(true),
            Err(error) => Err(error),
        }
    }

    /// Whether a read at `path` is answered by the channel.
    pub open spec fn read_uses_channel(&self, path: Seq<Seq<char>>) -> bool {
        match self.route(path) {
            Ok(Node::Register { kind, index, rest }) => kind != NodeKind::ComputedRegister
                && rest.len() == 0,
            _ => false,
        }
    }

    /// What a read at `path` returns; where it is answered by the
    /// channel, what it returns in mock mode.
    pub open spec fn read_at(&self, path: Seq<Seq<char>>) -> Result<Reading, ErrorView> {
        match self.route(path) {
            Err(error) => Err(error),
            Ok(Node::Root) => Ok(Reading::Directory(register_kinds())),
            Ok(Node::Registers(kind)) => Ok(Reading::Directory(self.names_of(kind))),
            Ok(Node::Register { kind, index, rest }) => if rest.len() > 0 {
                Err(ErrorView::NotADirectory { node: kind, segment: rest[0] })
            } else if kind == NodeKind::ComputedRegister {
                Ok(Reading::Computed { register: path[1] })
            } else {
                let text = if kind == NodeKind::RawRegister {
                    self.raw.entries@[index].item.read_from(self.channel.memory@)
                } else {
                    self.cooked.entries@[index].item.read_from(self.channel.memory@)
                };
                match text {
                    Ok(text) => Ok(Reading::Leaf(text)),
                    Err(error) => Err(error),
                }
            },
        }
    }

    /// Whether a write at `path` can be carried out: where the path ends
    /// at a cooked register, the register can tell how many bytes a write
    /// is to store.
    pub open spec fn can_write(&self, path: Seq<Seq<char>>) -> bool {
        match self.route(path) {
            Ok(Node::Register { kind, index, rest }) => kind == NodeKind::CookedRegister
                && rest.len() == 0 ==> self.cooked.entries@[index].item.can_encode(),
            _ => true,
        }
    }

    /// Whether a write at `path` goes to the channel.
    pub open spec fn write_uses_channel(&self, path: Seq<Seq<char>>, written: Written) -> bool {
        match self.route(path) {
            Ok(Node::Register { kind, index, rest }) => rest.len() == 0 && (kind
                == NodeKind::RawRegister || (kind == NodeKind::CookedRegister
                && self.cooked.entries@[index].item.encoding(written).is_ok())),
            _ => false,
        }
    }

    /// What a write at `path` brings about; where it goes to the channel,
    /// what it brings about in mock mode.
    pub open spec fn write_at(&self, path: Seq<Seq<char>>, written: Written) -> Result<
        Effect,
        ErrorView,
    > {
        match self.route(path) {
            Err(error) => Err(error),
            Ok(Node::Root) => Err(
                ErrorView::UnsupportedOperation { operation: Operation::Write, target: "device"@ },
            ),
            Ok(Node::Registers(kind)) => Err(
                ErrorView::UnsupportedOperation { operation: Operation::Write, target: path[0] },
            ),
            Ok(Node::Register { kind, index, rest }) => if rest.len() > 0 {
                Err(ErrorView::NotADirectory { node: kind, segment: rest[0] })
            } else if kind == NodeKind::ComputedRegister {
                Ok(Effect::Computed { register: path[1] })
            } else if kind == NodeKind::RawRegister {
                Ok(
                    Effect::Stored(
                        stored(
                            self.channel.memory@,
                            self.raw.entries@[index].item.address.base as int,
                            written.text@,
                        ),
                    ),
                )
            } else {
                match self.cooked.entries@[index].item.written_to(written, self.channel.memory@) {
                    Ok(store) => Ok(Effect::Stored(store)),
                    Err(error) => Err(error),
                }
            },
        }
    }

    /// Puts the defaults of the raw registers into the mock memory, in
    /// place of what it held.
    pub fn seed_mock_memory(&mut self)
        ensures
            final(self).raw == old(self).raw,
            final(self).cooked == old(self).cooked,
            final(self).computed == old(self).computed,
            final(self).channel.bus == old(self).channel.bus,
            final(self).channel.mock == old(self).channel.mock,
            final(self).channel.memory@ == seeded(old(self).raw.items()),
    {
        let memory = MockMemory::filled_with_device_defaults(&*self);
        self.channel.memory = memory;
    }

    /// Finds what `path` reaches.
    pub fn locate(&self, path: &[String]) -> (result: Result<Located, TreeError>)
        ensures
            locates(result, self.route(texts(path@))),
            match result {
                Ok(Located::Register { kind, index }) => path@.len() >= 2 && match kind {
                    NodeKind::RawRegister => index < self.raw.entries@.len(),
                    NodeKind::CookedRegister => index < self.cooked.entries@.len(),
                    NodeKind::ComputedRegister => index < self.computed.entries@.len(),
                    _ => false,
                },
                _ => true,
            },
    {
        if path.len() == 0 {
            return Ok(Located::Root);
        }
        let kind = if segment_is(&path[0], "raw") {
            NodeKind::RawRegister
        } else if segment_is(&path[0], "cooked") {
            NodeKind::CookedRegister
        } else if segment_is(&path[0], "computed") {
            NodeKind::ComputedRegister
        } else {
            return Err(TreeError::NotFound { segment: path[0].clone() });
        };
        if path.len() == 1 {
            return Ok(Located::Registers(kind));
        }
        let found = match kind {
            NodeKind::RawRegister => self.raw.find(&path[1]),
            NodeKind::CookedRegister => self.cooked.find(&path[1]),
            _ => self.computed.find(&path[1]),
        };
        match found {
            Some(index) => Ok(Located::Register { kind, index }),
            None => Err(TreeError::NotFound { segment: path[1].clone() }),
        }
    }

    /// Whether `path` ends at a directory: the device and its three
    /// directories are, a register is not, and below a register there is
    /// nothing.
    pub fn is_dir(&self, path: &[String]) -> (result: Result<bool, TreeError>)
        ensures
            match self.dir_at(texts(path@)) {
                Ok(dir) => result == Ok::<bool, TreeError>(dir),
                Err(error) => fails(result, error),
            },
    {
        match self.locate(path)? {
            Located::Register { kind, index } => {
                if path.len() == 2 {
                    Ok(false)
                } else {
                    Err(TreeError::NotADirectory { node: kind, segment: path[2].clone() })
                }
            },
            _ => Ok(true),
        }
    }

    /// Reads at `path`: the listing of a directory, the value of a raw or
    /// cooked register, or the word that the path ends at a computed
    /// register. Whatever the hardware answers, a register is read as a
    /// leaf or not at all.
    pub fn read(&self, path: &[String]) -> (result: Result<Reached<Entry>, TreeError>)
        ensures
            self.channel.mock || !self.read_uses_channel(texts(path@)) ==> reads(
                result,
                self.read_at(texts(path@)),
            ),
            self.read_uses_channel(texts(path@)) ==> match result {
                Ok(Reached::Done(Entry::Leaf(_))) => true,
                Ok(_) => false,
                Err(_) => true,
            },
    {
        match self.locate(path)? {
            Located::Root => {
                let mut names: Vec<String> = Vec::new();
                names.push(String::from_str("raw"));
                names.push(String::from_str("cooked"));
                names.push(String::from_str("computed"));
                assert(texts(names@) =~= register_kinds());
                Ok(Reached::Done(Entry::Directory(names)))
            },
            Located::Registers(kind) => {
                let names = match kind {
                    NodeKind::RawRegister => self.raw.list(),
                    NodeKind::CookedRegister => self.cooked.list(),
                    _ => self.computed.list(),
                };
                Ok(Reached::Done(Entry::Directory(names)))
            },
            Located::Register { kind, index } => {
                let rest = slice_subrange(path, 2, path.len());
                proof {
                    lemma_texts_subrange(path@, 2, path@.len() as int);
                }
                match kind {
                    NodeKind::RawRegister => {
                        let entry = self.raw.entries[index].item.read_value(rest, &self.channel)?;
                        Ok(Reached::Done(entry))
                    },
                    NodeKind::CookedRegister => {
                        let entry = self.cooked.entries[index].item.read_value(
                            rest,
                            &self.channel,
                        )?;
                        Ok(Reached::Done(entry))
                    },
                    _ => {
                        if rest.len() > 0 {
                            Err(
                                TreeError::NotADirectory {
                                    node: NodeKind::ComputedRegister,
                                    segment: rest[0].clone(),
                                },
                            )
                        } else {
                            Ok(Reached::Computed { register: path[1].clone() })
                        }
                    },
                }
            },
        }
    }

    /// Writes at `path`: to a raw register the text as it is, to a cooked
    /// register what the text stands for; at a computed register the
    /// write is handed back to the caller. A directory cannot be written.
    pub fn write(&mut self, path: &[String], written: &Written) -> (result: Result<
        Reached<()>,
        TreeError,
    >)
        requires
            old(self).can_write(texts(path@)),
        ensures
            final(self).raw == old(self).raw,
            final(self).cooked == old(self).cooked,
            final(self).computed == old(self).computed,
            final(self).channel.mock == old(self).channel.mock,
            !old(self).channel.mock ==> final(self).channel.memory == old(self).channel.memory,
            !old(self).write_uses_channel(texts(path@), *written) ==> final(self).channel == old(
                self,
            ).channel,
            old(self).channel.mock ==> final(self).channel.bus == old(self).channel.bus,
            old(self).channel.mock || !old(self).write_uses_channel(texts(path@), *written)
                ==> writes(
                result,
                old(self).channel.memory@,
                final(self).channel.memory@,
                old(self).write_at(texts(path@), *written),
            ),
    {
        match self.locate(path)? {
            Located::Root => Err(
                TreeError::UnsupportedOperation {
                    operation: Operation::Write,
                    target: String::from_str("device"),
                },
            ),
            Located::Registers(kind) => Err(
                TreeError::UnsupportedOperation {
                    operation: Operation::Write,
                    target: path[0].clone(),
                },
            ),
            Located::Register { kind, index } => {
                let rest = slice_subrange(path, 2, path.len());
                proof {
                    lemma_texts_subrange(path@, 2, path@.len() as int);
                }
                match kind {
                    NodeKind::RawRegister => {
                        let text = written.text.clone();
                        assert(text@ =~= written.text@);
                        self.raw.entries[index].item.write_value(rest, text, &mut self.channel)?;
                        Ok(Reached::Done(()))
                    },
                    NodeKind::CookedRegister => {
                        self.cooked.entries[index].item.write_value(
                            rest,
                            written,
                            &mut self.channel,
                        )?;
                        Ok(Reached::Done(()))
                    },
                    _ => {
                        if rest.len() > 0 {
                            Err(
                                TreeError::NotADirectory {
                                    node: NodeKind::ComputedRegister,
                                    segment: rest[0].clone(),
                                },
                            )
                        } else {
                            Ok(Reached::Computed { register: path[1].clone() })
                        }
                    },
                }
            },
        }
    }
}

/// `is_dir` and `read` agree: where a path ends at a directory, a read
/// lists it; where it ends at a register, a read lists nothing; where
/// `is_dir` fails, a read fails in the same way.
pub proof fn lemma_read_agrees_with_is_dir<B: Bus>(device: Device<B>, path: Seq<Seq<char>>)
    ensures
        match device.dir_at(path) {
            Ok(true) => match device.read_at(path) {
                Ok(Reading::Directory(_)) => true,
                _ => false,
            },
            Ok(false) => match device.read_at(path) {
                Ok(Reading::Directory(_)) => false,
                _ => true,
            },
            Err(error) => device.read_at(path) == Err::<Reading, ErrorView>(error),
        },
{
}

} // verus!
