use crate::communication_channel::Bus;
use crate::device::{lemma_texts_subrange, owned, segment_is, Device};
use crate::error::{fails, is_directory, texts, Entry, ErrorView, NodeKind, Operation, TreeError};
use crate::names::NameMap;
use vstd::prelude::*;
use vstd::slice::slice_subrange;

verus! {

/// What a path reaches in the camera.
pub enum Place {
    /// The camera itself.
    Root,
    /// The model name; `rest` is what the path holds beyond it.
    CameraModel { rest: Seq<Seq<char>> },
    /// The directory of the devices.
    Devices,
    /// The device at `index`; `rest` is the path within the device.
    Device { index: int, rest: Seq<Seq<char>> },
    /// The directory of the scripts.
    Scripts,
    /// The directory of one script.
    Script { script: Seq<char> },
    /// The value of a script.
    ScriptValue { script: Seq<char> },
    /// Something else of a script; `rest` is the path within the script.
    ScriptTree { script: Seq<char>, rest: Seq<Seq<char>> },
    /// The directory of the properties.
    Properties,
    /// The property at `index`; `rest` is what the path holds beyond it.
    Property { index: int, rest: Seq<Seq<char>> },
}

/// What `locate` found: a `Place`, with positions as indices into the
/// collections.
#[derive(Clone, Copy, Debug, PartialEq, Eq)]
pub enum Located {
    Root,
    CameraModel,
    Devices,
    Device { index: usize },
    Scripts,
    Script,
    ScriptValue,
    ScriptTree,
    Properties,
    Property { index: usize },
}

/// Where an operation goes on that the camera itself cannot carry out.
/// The caller takes it there, holding the guard of the device or of the
/// script for as long as it takes.
#[derive(Clone, Debug, PartialEq, Eq)]
pub enum Handover {
    /// To the device called `device`, with `rest` as the path in it.
    Device { device: String, rest: Vec<String> },
    /// To the script called `script`, for the listing of what it holds,
    /// which `script_listing` completes.
    ScriptListing { script: String },
    /// To the script called `script`, to be run for its value.
    ScriptValue { script: String },
    /// To the script called `script`, with `rest` as the path in it.
    ScriptTree { script: String, rest: Vec<String> },
}

/// A handover as contracts speak of it.
pub enum Handed {
    Device { device: Seq<char>, rest: Seq<Seq<char>> },
    ScriptListing { script: Seq<char> },
    ScriptValue { script: Seq<char> },
    ScriptTree { script: Seq<char>, rest: Seq<Seq<char>> },
}

impl View for Handover {
    type V = Handed;

    open spec fn view(&self) -> Handed {
        match *self {
            Handover::Device { device, rest } => Handed::Device {
                device: device@,
                rest: texts(rest@),
            },
            Handover::ScriptListing { script } => Handed::ScriptListing { script: script@ },
            Handover::ScriptValue { script } => Handed::ScriptValue { script: script@ },
            Handover::ScriptTree { script, rest } => Handed::ScriptTree {
                script: script@,
                rest: texts(rest@),
            },
        }
    }
}

/// The answer of the camera to `is_dir` or `read`: the result, or where
/// the caller is to take the operation.
#[derive(Clone, Debug, PartialEq, Eq)]
pub enum Answer<T> {
    Done(T),
    Handed(Handover),
}

/// What `is_dir` or `read` comes to.
pub enum Outcome {
    /// Whether the path ends at a directory.
    Dir(bool),
    /// A directory was read; these are its children.
    Directory(Seq<Seq<char>>),
    /// A leaf was read; this is its text.
    Leaf(Seq<char>),
    /// The operation goes on elsewhere.
    Handed(Handed),
}

/// The names of the children of the camera.
pub open spec fn camera_children() -> Seq<Seq<char>> {
    seq!["camera_model"@, "devices"@, "scripts"@, "properties"@]
}

/// Whether `result` is the answer to `is_dir` that `expected` describes.
pub open spec fn answers_dir(
    result: Result<Answer<bool>, TreeError>,
    expected: Result<Outcome, ErrorView>,
) -> bool {
    match expected {
        Err(error) => fails(result, error),
        Ok(Outcome::Dir(dir)) => result == Ok::<Answer<bool>, TreeError>(Answer::Done(dir)),
        Ok(Outcome::Handed(handed)) => match result {
            Ok(Answer::Handed(handover)) => handover@ == handed,
            _ => false,
        },
        Ok(_) => false,
    }
}

/// Whether `result` is the answer to `read` that `expected` describes.
pub open spec fn answers_read(
    result: Result<Answer<Entry>, TreeError>,
    expected: Result<Outcome, ErrorView>,
) -> bool {
    match expected {
        Err(error) => fails(result, error),
        Ok(Outcome::Directory(names)) => match result {
            Ok(Answer::Done(entry)) => is_directory(entry, names),
            _ => false,
        },
        Ok(Outcome::Leaf(text)) => match result {
            Ok(Answer::Done(Entry::Leaf(leaf))) => leaf@ == text,
            _ => false,
        },
        Ok(Outcome::Handed(handed)) => match result {
            Ok(Answer::Handed(handover)) => handover@ == handed,
            _ => false,
        },
        Ok(Outcome::Dir(_)) => false,
    }
}

/// Whether `result` is the answer to `write` that `expected` describes.
pub open spec fn answers_write(
    result: Result<Handover, TreeError>,
    expected: Result<Handed, ErrorView>,
) -> bool {
    match expected {
        Err(error) => fails(result, error),
        Ok(handed) => result.is_ok() && result.unwrap()@ == handed,
    }
}

/// The listing of the directory of a script: what the script itself
/// holds, and one more entry, `value`.
pub fn script_listing(children: Vec<String>) -> (entry: Entry)
    ensures
        is_directory(entry, texts(children@).push("value"@)),
{
    let mut names = children;
    names.push(String::from_str("value"));
    assert(texts(names@) =~= texts(children@).push("value"@));
    Entry::Directory(names)
}

/// A camera: its model, its devices and properties by name, and the names
/// of its scripts. The camera finds the way to a device and never
/// touches one: `D` is whatever holds a device for the caller, the device
/// itself or the device behind its guard.
#[derive(Debug)]
pub struct Camera<D> {
    pub camera_model: String,
    pub devices: NameMap<D>,
    pub scripts: Vec<String>,
    pub properties: NameMap<String>,
}

impl<D> Camera<D> {
    /// Whether the camera has a script called `name`.
    pub open spec fn has_script(&self, name: Seq<char>) -> bool {
        texts(self.scripts@).contains(name)
    }

    /// What `path` reaches.
    pub open spec fn route(&self, path: Seq<Seq<char>>) -> Result<Place, ErrorView> {
        if path.len() == 0 {
            Ok(Place::Root)
        } else if path[0] == "camera_model"@ {
            Ok(Place::CameraModel { rest: path.subrange(1, path.len() as int) })
        } else if path[0] == "devices"@ {
            if path.len() == 1 {
                Ok(Place::Devices)
            } else {
                match self.devices.position(path[1]) {
                    Some(index) => Ok(
                        Place::Device { index, rest: path.subrange(2, path.len() as int) },
                    ),
                    None => Err(ErrorView::NotFound { segment: path[1] }),
                }
            }
        } else if path[0] == "scripts"@ {
            if path.len() == 1 {
                Ok(Place::Scripts)
            } else if !self.has_script(path[1]) {
                Err(ErrorView::NotFound { segment: path[1] })
            } else if path.len() == 2 {
                Ok(Place::Script { script: path[1] })
            } else if path[2] == "value"@ {
                Ok(Place::ScriptValue { script: path[1] })
            } else {
                Ok(Place::ScriptTree { script: path[1], rest: path.subrange(2, path.len() as int) })
            }
        } else if path[0] == "properties"@ {
            if path.len() == 1 {
                Ok(Place::Properties)
            } else {
                match self.properties.position(path[1]) {
                    Some(index) => Ok(
                        Place::Property { index, rest: path.subrange(2, path.len() as int) },
                    ),
                    None => Err(ErrorView::NotFound { segment: path[1] }),
                }
            }
        } else {
            Err(ErrorView::NotFound { segment: path[0] })
        }
    }

    /// Whether `path` ends at a directory.
    pub open spec fn dir_at(&self, path: Seq<Seq<char>>) -> Result<Outcome, ErrorView> {
        match self.route(path) {
            Err(error) => Err(error),
            Ok(Place::CameraModel { rest }) => if rest.len() == 0 {
                Ok(Outcome::Dir(false))
            } else {
                Err(ErrorView::NotADirectory { node: NodeKind::CameraModel, segment: rest[0] })
            },
            Ok(Place::Device { index, rest }) => if rest.len() == 0 {
                Ok(Outcome::Dir(true))
            } else {
                Ok(Outcome::Handed(Handed::Device { device: path[1], rest }))
            },
            Ok(Place::ScriptValue { script }) => Ok(Outcome::Dir(false)),
            Ok(Place::ScriptTree { script, rest }) => Ok(
                Outcome::Handed(Handed::ScriptTree { script, rest }),
            ),
            Ok(Place::Property { index, rest }) => if rest.len() == 0 {
                Ok(Outcome::Dir(false))
            } else {
                Err(ErrorView::NotADirectory { node: NodeKind::Property, segment: rest[0] })
            },
            Ok(_) => Ok(Outcome::Dir(true)),
        }
    }

    /// What a read at `path` returns.
    pub open spec fn read_at(&self, path: Seq<Seq<char>>) -> Result<Outcome, ErrorView> {
        match self.route(path) {
            Err(error) => Err(error),
            Ok(Place::Root) => Ok(Outcome::Directory(camera_children())),
            Ok(Place::CameraModel { rest }) => if rest.len() == 0 {
                Ok(Outcome::Leaf(self.camera_model@))
            } else {
                Err(ErrorView::NotADirectory { node: NodeKind::CameraModel, segment: rest[0] })
            },
            Ok(Place::Devices) => Ok(Outcome::Directory(self.devices.names())),
            Ok(Place::Device { index, rest }) => Ok(
                Outcome::Handed(Handed::Device { device: path[1], rest }),
            ),
            Ok(Place::Scripts) => Ok(Outcome::Directory(texts(self.scripts@))),
            Ok(Place::Script { script }) => Ok(Outcome::Handed(Handed::ScriptListing { script })),
            Ok(Place::ScriptValue { script }) => Ok(
                Outcome::Handed(Handed::ScriptValue { script }),
            ),
            Ok(Place::ScriptTree { script, rest }) => Ok(
                Outcome::Handed(Handed::ScriptTree { script, rest }),
            ),
            Ok(Place::Properties) => Ok(Outcome::Directory(self.properties.names())),
            Ok(Place::Property { index, rest }) => if rest.len() == 0 {
                Ok(Outcome::Leaf(self.properties.entries@[index].item@))
            } else {
                Err(ErrorView::NotADirectory { node: NodeKind::Property, segment: rest[0] })
            },
        }
    }

    /// Where a write at `path` goes, or why it goes nowhere.
    pub open spec fn write_at(&self, path: Seq<Seq<char>>) -> Result<Handed, ErrorView> {
        match self.route(path) {
            Err(error) => Err(error),
            Ok(Place::Root) => Err(
                ErrorView::UnsupportedOperation { operation: Operation::Write, target: "camera"@ },
            ),
            Ok(Place::CameraModel { rest }) => Err(
                ErrorView::UnsupportedOperation {
                    operation: Operation::Write,
                    target: "Camera.camera_model"@,
                },
            ),
            Ok(Place::Devices) => Err(
                ErrorView::UnsupportedOperation {
                    operation: Operation::Write,
                    target: "camera.devices"@,
                },
            ),
            Ok(Place::Device { index, rest }) => Ok(Handed::Device { device: path[1], rest }),
            Ok(Place::Scripts) => Err(
                ErrorView::UnsupportedOperation {
                    operation: Operation::Write,
                    target: "camera.scripts"@,
                },
            ),
            Ok(Place::Script { script }) => Ok(Handed::ScriptTree { script, rest: Seq::empty() }),
            Ok(Place::ScriptValue { script }) => Ok(Handed::ScriptValue { script }),
            Ok(Place::ScriptTree { script, rest }) => Ok(Handed::ScriptTree { script, rest }),
            Ok(Place::Properties) => Err(ErrorView::NotFound { segment: path[0] }),
            Ok(Place::Property { index, rest }) => Err(ErrorView::NotFound { segment: path[0] }),
        }
    }

    /// Whether `result` is what `expected` describes.
    pub open spec fn locates(
        &self,
        result: Result<Located, TreeError>,
        expected: Result<Place, ErrorView>,
    ) -> bool {
        match expected {
            Err(error) => fails(result, error),
            Ok(Place::Root) => result == Ok::<Located, TreeError>(Located::Root),
            Ok(Place::CameraModel { rest }) => result == Ok::<Located, TreeError>(
                Located::CameraModel,
            ),
            Ok(Place::Devices) => result == Ok::<Located, TreeError>(Located::Devices),
            Ok(Place::Device { index, rest }) => match result {
                Ok(Located::Device { index: found }) => found == index && found
                    < self.devices.entries@.len(),
                _ => false,
            },
            Ok(Place::Scripts) => result == Ok::<Located, TreeError>(Located::Scripts),
            Ok(Place::Script { script }) => result == Ok::<Located, TreeError>(Located::Script),
            Ok(Place::ScriptValue { script }) => result == Ok::<Located, TreeError>(
                Located::ScriptValue,
            ),
            Ok(Place::ScriptTree { script, rest }) => result == Ok::<Located, TreeError>(
                Located::ScriptTree,
            ),
            Ok(Place::Properties) => result == Ok::<Located, TreeError>(Located::Properties),
            Ok(Place::Property { index, rest }) => match result {
                Ok(Located::Property { index: found }) => found == index && found
                    < self.properties.entries@.len(),
                _ => false,
            },
        }
    }

    /// A camera of the given model, with these devices, properties and
    /// scripts.
    pub fn new(
        camera_model: String,
        devices: NameMap<D>,
        properties: NameMap<String>,
        scripts: Vec<String>,
    ) -> (camera: Camera<D>)
        ensures
            camera.camera_model == camera_model,
            camera.devices == devices,
            camera.properties == properties,
            camera.scripts == scripts,
    {
        Camera { camera_model, devices, scripts, properties }
    }

    /// Whether the camera has a script called `name`.
    pub fn knows_script(&self, name: &String) -> (known: bool)
        ensures
            known == self.has_script(name@),
    {
        let mut i: usize = 0;
        while i < self.scripts.len()
            invariant
                i <= self.scripts.len(),
                forall|k: int| 0 <= k < i ==> self.scripts@[k]@ != name@,
            decreases self.scripts.len() - i,
        {
            if self.scripts[i] == *name {
                assert(texts(self.scripts@)[i as int] == name@);
                return true;
            }
            i += 1;
        }
        assert forall|k: int| 0 <= k < texts(self.scripts@).len() implies texts(self.scripts@)[k]
            != name@ by {
            assert(texts(self.scripts@)[k] == self.scripts@[k]@);
        }
        false
    }

    /// Finds what `path` reaches.
    pub fn locate(&self, path: &[String]) -> (result: Result<Located, TreeError>)
        ensures
            self.locates(result, self.route(texts(path@))),
    {
        if path.len() == 0 {
            return Ok(Located::Root);
        }
        if segment_is(&path[0], "camera_model") {
            Ok(Located::CameraModel)
        } else if segment_is(&path[0], "devices") {
            if path.len() == 1 {
                return Ok(Located::Devices);
            }
            match self.devices.find(&path[1]) {
                Some(index) => Ok(Located::Device { index }),
                None => Err(TreeError::NotFound { segment: path[1].clone() }),
            }
        } else if segment_is(&path[0], "scripts") {
            if path.len() == 1 {
                return Ok(Located::Scripts);
            }
            if !self.knows_script(&path[1]) {
                return Err(TreeError::NotFound { segment: path[1].clone() });
            }
            if path.len() == 2 {
                Ok(Located::Script)
            } else if segment_is(&path[2], "value") {
                Ok(Located::ScriptValue)
            } else {
                Ok(Located::ScriptTree)
            }
        } else if segment_is(&path[0], "properties") {
            if path.len() == 1 {
                return Ok(Located::Properties);
            }
            match self.properties.find(&path[1]) {
                Some(index) => Ok(Located::Property { index }),
                None => Err(TreeError::NotFound { segment: path[1].clone() }),
            }
        } else {
            Err(TreeError::NotFound { segment: path[0].clone() })
        }
    }

    /// Whether `path` ends at a directory. A device is one; what lies in
    /// it is for the device to say. The value of a script never is one;
    /// what lies elsewhere in a script is for the script to say.
    pub fn is_dir(&self, path: &[String]) -> (result: Result<Answer<bool>, TreeError>)
        ensures
            answers_dir(result, self.dir_at(texts(path@))),
    {
        match self.locate(path)? {
            Located::CameraModel => {
                if path.len() == 1 {
                    Ok(Answer::Done(false))
                } else {
                    Err(
                        TreeError::NotADirectory {
                            node: NodeKind::CameraModel,
                            segment: path[1].clone(),
                        },
                    )
                }
            },
            Located::Device { index } => {
                if path.len() == 2 {
                    assert(texts(path@).subrange(2, 2) =~= Seq::<Seq<char>>::empty());
                    return Ok(Answer::Done(true));
                }
                let rest = slice_subrange(path, 2, path.len());
                proof {
                    lemma_texts_subrange(path@, 2, path@.len() as int);
                }
                Ok(Answer::Handed(Handover::Device { device: path[1].clone(), rest: owned(rest) }))
            },
            Located::ScriptValue => Ok(Answer::Done(false)),
            Located::ScriptTree => {
                let rest = slice_subrange(path, 2, path.len());
                proof {
                    lemma_texts_subrange(path@, 2, path@.len() as int);
                }
                Ok(
                    Answer::Handed(
                        Handover::ScriptTree { script: path[1].clone(), rest: owned(rest) },
                    ),
                )
            },
            Located::Property { index } => {
                if path.len() == 2 {
                    Ok(Answer::Done(false))
                } else {
                    Err(
                        TreeError::NotADirectory {
                            node: NodeKind::Property,
                            segment: path[2].clone(),
                        },
                    )
                }
            },
            _ => Ok(Answer::Done(true)),
        }
    }

    /// Reads at `path`: the listing of a directory or the text of a leaf
    /// of the camera itself. At a device and at a script the answer says
    /// where the read goes on.
    pub fn read(&self, path: &[String]) -> (result: Result<Answer<Entry>, TreeError>)
        ensures
            answers_read(result, self.read_at(texts(path@))),
    {
        match self.locate(path)? {
            Located::Root => {
                let mut names: Vec<String> = Vec::new();
                names.push(String::from_str("camera_model"));
                names.push(String::from_str("devices"));
                names.push(String::from_str("scripts"));
                names.push(String::from_str("properties"));
                assert(texts(names@) =~= camera_children());
                Ok(Answer::Done(Entry::Directory(names)))
            },
            Located::CameraModel => {
                if path.len() == 1 {
                    Ok(Answer::Done(Entry::Leaf(self.camera_model.clone())))
                } else {
                    Err(
                        TreeError::NotADirectory {
                            node: NodeKind::CameraModel,
                            segment: path[1].clone(),
                        },
                    )
                }
            },
            Located::Devices => Ok(Answer::Done(Entry::Directory(self.devices.list()))),
            Located::Device { index } => {
                let rest = slice_subrange(path, 2, path.len());
                proof {
                    lemma_texts_subrange(path@, 2, path@.len() as int);
                }
                Ok(Answer::Handed(Handover::Device { device: path[1].clone(), rest: owned(rest) }))
            },
            Located::Scripts => {
                let names = owned(self.scripts.as_slice());
                Ok(Answer::Done(Entry::Directory(names)))
            },
            Located::Script => Ok(
                Answer::Handed(Handover::ScriptListing { script: path[1].clone() }),
            ),
            Located::ScriptValue => Ok(
                Answer::Handed(Handover::ScriptValue { script: path[1].clone() }),
            ),
            Located::ScriptTree => {
                let rest = slice_subrange(path, 2, path.len());
                proof {
                    lemma_texts_subrange(path@, 2, path@.len() as int);
                }
                Ok(
                    Answer::Handed(
                        Handover::ScriptTree { script: path[1].clone(), rest: owned(rest) },
                    ),
                )
            },
            Located::Properties => Ok(Answer::Done(Entry::Directory(self.properties.list()))),
            Located::Property { index } => {
                if path.len() == 2 {
                    Ok(Answer::Done(Entry::Leaf(self.properties.entries[index].item.clone())))
                } else {
                    Err(
                        TreeError::NotADirectory {
                            node: NodeKind::Property,
                            segment: path[2].clone(),
                        },
                    )
                }
            },
        }
    }

    /// Says where a write at `path` goes. Only devices and scripts take
    /// writes: the camera, its model and its directories refuse them,
    /// each under its own name, and nothing else is found. The camera
    /// itself never changes.
    pub fn write(&self, path: &[String]) -> (result: Result<Handover, TreeError>)
        ensures
            answers_write(result, self.write_at(texts(path@))),
    {
        match self.locate(path)? {
            Located::Root => Err(
                TreeError::UnsupportedOperation {
                    operation: Operation::Write,
                    target: String::from_str("camera"),
                },
            ),
            Located::CameraModel => Err(
                TreeError::UnsupportedOperation {
                    operation: Operation::Write,
                    target: String::from_str("Camera.camera_model"),
                },
            ),
            Located::Devices => Err(
                TreeError::UnsupportedOperation {
                    operation: Operation::Write,
                    target: String::from_str("camera.devices"),
                },
            ),
            Located::Scripts => Err(
                TreeError::UnsupportedOperation {
                    operation: Operation::Write,
                    target: String::from_str("camera.scripts"),
                },
            ),
            Located::Device { index } => {
                let rest = slice_subrange(path, 2, path.len());
                proof {
                    lemma_texts_subrange(path@, 2, path@.len() as int);
                }
                Ok(Handover::Device { device: path[1].clone(), rest: owned(rest) })
            },
            Located::Script => {
                let rest: Vec<String> = Vec::new();
                assert(texts(rest@) =~= Seq::<Seq<char>>::empty());
                Ok(Handover::ScriptTree { script: path[1].clone(), rest })
            },
            Located::ScriptValue => Ok(Handover::ScriptValue { script: path[1].clone() }),
            Located::ScriptTree => {
                let rest = slice_subrange(path, 2, path.len());
                proof {
                    lemma_texts_subrange(path@, 2, path@.len() as int);
                }
                Ok(Handover::ScriptTree { script: path[1].clone(), rest: owned(rest) })
            },
            Located::Properties | Located::Property { .. } => Err(
                TreeError::NotFound { segment: path[0].clone() },
            ),
        }
    }
}

impl<B: Bus> Camera<Device<B>> {
    /// Turns mock mode on or off for every device. Nothing else changes.
    pub fn mocked(&mut self, mock: bool)
        ensures
            final(self).camera_model == old(self).camera_model,
            final(self).scripts == old(self).scripts,
            final(self).properties == old(self).properties,
            final(self).devices.names() == old(self).devices.names(),
            final(self).devices.entries@.len() == old(self).devices.entries@.len(),
            forall|i: int|
                0 <= i < old(self).devices.entries@.len() ==> {
                    let before = (#[trigger] old(self).devices.entries@[i]).item;
                    let after = final(self).devices.entries@[i].item;
                    &&& after.raw == before.raw
                    &&& after.cooked == before.cooked
                    &&& after.computed == before.computed
                    &&& after.channel.bus == before.channel.bus
                    &&& after.channel.memory == before.channel.memory
                    &&& after.channel.mock == mock
                },
    {
        let mut i: usize = 0;
        while i < self.devices.len()
            invariant
                i <= self.devices.entries@.len(),
                self.camera_model == old(self).camera_model,
                self.scripts == old(self).scripts,
                self.properties == old(self).properties,
                self.devices.names() == old(self).devices.names(),
                self.devices.entries@.len() == old(self).devices.entries@.len(),
                forall|k: int|
                    0 <= k < old(self).devices.entries@.len() ==> {
                        let before = (#[trigger] old(self).devices.entries@[k]).item;
                        let after = self.devices.entries@[k].item;
                        &&& after.raw == before.raw
                        &&& after.cooked == before.cooked
                        &&& after.computed == before.computed
                        &&& after.channel.bus == before.channel.bus
                        &&& after.channel.memory == before.channel.memory
                        &&& after.channel.mock == if k < i {
                            mock
                        } else {
                            before.channel.mock
                        }
                    },
            decreases self.devices.entries@.len() - i,
        {
            let device = self.devices.item_mut(i);
            device.channel.mock_mode(mock);
            i += 1;
        }
    }
}

/// The property of the camera called `name`, as text.
pub fn property<D>(camera: &Camera<D>, name: &String) -> (result: Result<String, TreeError>)
    ensures
        match camera.properties.position(name@) {
            Some(index) => result.is_ok() && result.unwrap()@
                == camera.properties.entries@[index].item@,
            None => fails(result, ErrorView::NotFound { segment: name@ }),
        },
{
    match camera.properties.get(name) {
        Some(value) => Ok(value.clone()),
        None => Err(TreeError::NotFound { segment: name.clone() }),
    }
}

/// The names of the children of the camera differ from each other.
pub proof fn lemma_camera_children_differ()
    ensures
        "camera_model"@ != "devices"@,
        "camera_model"@ != "scripts"@,
        "camera_model"@ != "properties"@,
        "devices"@ != "scripts"@,
        "devices"@ != "properties"@,
        "scripts"@ != "properties"@,
{
    reveal_strlit("camera_model");
    reveal_strlit("devices");
    reveal_strlit("scripts");
    reveal_strlit("properties");
    assert("camera_model"@[0] == 'c');
    assert("devices"@[0] == 'd');
    assert("scripts"@[0] == 's');
    assert("properties"@[0] == 'p');
}

/// `is_dir` and `read` agree: where a path ends at a directory, a read
/// lists it or asks the script for its listing; where it ends at a leaf,
/// a read gives its text or runs the script for it; where `is_dir` fails
/// or is handed on, `read` fails in the same way or is handed on to the
/// same place.
pub proof fn lemma_read_agrees_with_is_dir<D>(camera: Camera<D>, path: Seq<Seq<char>>)
    ensures
        match camera.dir_at(path) {
            Ok(Outcome::Dir(true)) => match camera.read_at(path) {
                Ok(Outcome::Directory(_)) => true,
                Ok(Outcome::Handed(Handed::ScriptListing { script })) => true,
                Ok(Outcome::Handed(Handed::Device { device, rest })) => rest.len() == 0,
                _ => false,
            },
            Ok(Outcome::Dir(false)) => match camera.read_at(path) {
                Ok(Outcome::Leaf(_)) => true,
                Ok(Outcome::Handed(Handed::ScriptValue { script })) => true,
                _ => false,
            },
            Ok(handed) => camera.read_at(path) == Ok::<Outcome, ErrorView>(handed),
            Err(error) => camera.read_at(path) == Err::<Outcome, ErrorView>(error),
        },
{
}

/// The bare directories of the camera refuse a write, each under its own
/// name.
pub proof fn lemma_directories_refuse_writes<D>(camera: Camera<D>)
    ensures
        camera.write_at(Seq::empty()) == Err::<Handed, ErrorView>(
            ErrorView::UnsupportedOperation { operation: Operation::Write, target: "camera"@ },
        ),
        camera.write_at(seq!["devices"@]) == Err::<Handed, ErrorView>(
            ErrorView::UnsupportedOperation {
                operation: Operation::Write,
                target: "camera.devices"@,
            },
        ),
        camera.write_at(seq!["scripts"@]) == Err::<Handed, ErrorView>(
            ErrorView::UnsupportedOperation {
                operation: Operation::Write,
                target: "camera.scripts"@,
            },
        ),
{
    lemma_camera_children_differ();
}

/// The path to a script of the camera ends at a directory, and a read
/// there asks for the listing of the script.
pub proof fn lemma_script_is_a_directory<D>(camera: Camera<D>, script: Seq<char>)
    requires
        camera.has_script(script),
    ensures
        camera.dir_at(seq!["scripts"@, script]) == Ok::<Outcome, ErrorView>(Outcome::Dir(true)),
        camera.read_at(seq!["scripts"@, script]) == Ok::<Outcome, ErrorView>(
            Outcome::Handed(Handed::ScriptListing { script }),
        ),
{
    lemma_camera_children_differ();
}

/// Whatever a script itself holds, its listing has an entry `value`.
pub proof fn lemma_script_listing_has_value(entry: Entry, children: Seq<Seq<char>>)
    requires
        is_directory(entry, children.push("value"@)),
    ensures
        match entry {
            Entry::Directory(names) => texts(names@).contains("value"@),
            Entry::Leaf(_) => false,
        },
{
    assert(children.push("value"@)[children.len() as int] == "value"@);
}

/// A path that goes to `value` in a script of the camera never ends at a
/// directory, whatever follows and whatever the script itself holds; a
/// read and a write there both run the script.
pub proof fn lemma_script_value_is_a_leaf<D>(camera: Camera<D>, path: Seq<Seq<char>>)
    requires
        path.len() >= 3,
        path[0] == "scripts"@,
        camera.has_script(path[1]),
        path[2] == "value"@,
    ensures
        camera.dir_at(path) == Ok::<Outcome, ErrorView>(Outcome::Dir(false)),
        camera.read_at(path) == Ok::<Outcome, ErrorView>(
            Outcome::Handed(Handed::ScriptValue { script: path[1] }),
        ),
        camera.write_at(path) == Ok::<Handed, ErrorView>(Handed::ScriptValue { script: path[1] }),
{
    lemma_camera_children_differ();
}

/// The model of the camera cannot be written: every write at or below
/// `camera_model` is refused as unsupported.
pub proof fn lemma_camera_model_is_read_only<D>(camera: Camera<D>, path: Seq<Seq<char>>)
    requires
        path.len() >= 1,
        path[0] == "camera_model"@,
    ensures
        camera.write_at(path) == Err::<Handed, ErrorView>(
            ErrorView::UnsupportedOperation {
                operation: Operation::Write,
                target: "Camera.camera_model"@,
            },
        ),
{
}

} // verus!
