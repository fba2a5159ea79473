//! Class registration for the hosting shell: the class key, its server path
//! and threading model, and the uninstall entry's command line.

use vstd::prelude::*;
use vstd::string::StringExecFns;

use crate::guid::format_guid;
use crate::guid::guid_text;
use crate::guid::Guid;
use crate::registry::is_write;
use crate::registry::RegRoot;
use crate::registry::RegWrite;

verus! {

/// The threading model a server's classes run under.
#[derive(Clone, Copy, Debug, PartialEq, Eq, Structural)]
pub enum ComThreadingModel {
    /// Single-threaded apartment.
    Apartment,
    /// Single-threaded or multithreaded apartment.
    Both,
    /// Multithreaded apartment.
    Free,
    /// Neutral apartment.
    Neutral,
}

/// The registry text naming a threading model.
pub open spec fn threading_model_text(m: ComThreadingModel) -> Seq<char> {
    match m {
        ComThreadingModel::Apartment => "Apartment"@,
        ComThreadingModel::Both => "Both"@,
        ComThreadingModel::Free => "Free"@,
        ComThreadingModel::Neutral => "Neutral"@,
    }
}

impl ComThreadingModel {
    /// The text stored in the class key's threading-model value.
    pub fn registry_text(&self) -> (r: &'static str)
        ensures
            r@ == threading_model_text(*self),
    {
        match self {
            ComThreadingModel::Apartment => "Apartment",
            ComThreadingModel::Both => "Both",
            ComThreadingModel::Free => "Free",
            ComThreadingModel::Neutral => "Neutral",
        }
    }
}

/// Where the server's loadable module lives.
pub enum ComServerPath {
    /// The module the running code itself is inside; the shell resolves it.
    CurrentModule,
    /// A path as text.
    RustPath(String),
    /// A path already encoded in the host's wide encoding, without a
    /// trailing terminator.
    Utf16Path(Vec<u16>),
}

impl ComServerPath {
    /// The path as an owned value.
    pub fn into_owned(self) -> (r: ComServerPath)
        ensures
            r == self,
    {
        self
    }

    /// The path as wide text for the host's string interfaces: path text is
    /// encoded with a trailing terminator, already-encoded wide text is kept
    /// as stored, and the current module's path only the shell can resolve.
    pub fn to_utf16_path(&self) -> (r: Option<Vec<u16>>)
        ensures
            match self {
                ComServerPath::CurrentModule => r is None,
                ComServerPath::RustPath(p) => r matches Option::Some(units) && units@
                    == crate::text::utf16_encode(p@).push(0u16),
                ComServerPath::Utf16Path(units) => r matches Option::Some(out) && out@ == units@,
            },
    {
        match self {
            ComServerPath::CurrentModule => None,
            ComServerPath::RustPath(p) => Some(crate::text::to_utf16(p.as_str())),
            ComServerPath::Utf16Path(units) => {
                let mut out: Vec<u16> = Vec::new();
                let mut i: usize = 0;
                while i < units.len()
                    invariant
                        0 <= i <= units@.len(),
                        out@ == units@.take(i as int),
                    decreases units@.len() - i,
                {
                    out.push(units[i]);
                    proof {
                        assert(out@ =~= units@.take(i + 1));
                    }
                    i = i + 1;
                }
                proof {
                    assert(units@.take(units@.len() as int) =~= units@);
                }
                Some(out)
            },
        }
    }
}

/// What registers one class: its identifier, an optional descriptive name,
/// the threading model, and the server module's path.
pub struct ComClassInfo {
    /// Identifier of the class.
    pub clsid: Guid,
    /// Optional descriptive name of the class.
    pub class_name: Option<String>,
    /// Threading model for the server that owns the class.
    pub threading_model: ComThreadingModel,
    /// Path to the module that can create the class.
    pub server_path: ComServerPath,
}

/// The class's key below the classes root.
pub open spec fn class_key_path(clsid: Guid) -> Seq<char> {
    "CLSID\\{"@ + guid_text(clsid) + "}"@
}

/// The class's server sub-key.
pub open spec fn inproc_server_key_path(clsid: Guid) -> Seq<char> {
    class_key_path(clsid) + "\\InprocServer32"@
}

/// Writes the class's key path below the classes root.
pub fn format_class_key_path(clsid: &Guid) -> (r: String)
    ensures
        r@ == class_key_path(*clsid),
{
    let mut out = String::from_str("CLSID\\{");
    let digits = format_guid(clsid);
    out.append(digits.as_str());
    out.append("}");
    proof {
        assert(out@ =~= class_key_path(*clsid));
    }
    out
}

/// Writes the class's server sub-key path.
pub fn format_inproc_server_key_path(clsid: &Guid) -> (r: String)
    ensures
        r@ == inproc_server_key_path(*clsid),
{
    let mut out = format_class_key_path(clsid);
    out.append("\\InprocServer32");
    proof {
        assert(out@ =~= inproc_server_key_path(*clsid));
    }
    out
}

impl ComClassInfo {
    /// The class info as an owned value.
    pub fn into_owned(self) -> (r: ComClassInfo)
        ensures
            r == self,
    {
        self
    }

    /// The writes registering this class, given the server module's resolved
    /// path text: the optional descriptive name as the class key's default
    /// value, then the server path and threading model under the server
    /// sub-key. All live below the classes root.
    pub fn registration_writes(&self, server_path: &str) -> (r: Vec<RegWrite>)
        ensures
            ({
                let class_key = class_key_path(self.clsid);
                let server_key = inproc_server_key_path(self.clsid);
                let named = self.class_name matches Option::Some(_);
                &&& r@.len() == (if named {
                    3int
                } else {
                    2int
                })
                &&& named ==> is_write(
                    r@[0],
                    RegRoot::ClassesRoot,
                    class_key,
                    Option::None,
                    self.class_name->0@,
                )
                &&& is_write(
                    r@[r@.len() - 2],
                    RegRoot::ClassesRoot,
                    server_key,
                    Option::None,
                    server_path@,
                )
                &&& is_write(
                    r@[r@.len() - 1],
                    RegRoot::ClassesRoot,
                    server_key,
                    Option::Some("ThreadingModel"@),
                    threading_model_text(self.threading_model),
                )
            }),
    {
        let class_key = format_class_key_path(&self.clsid);
        let server_key = format_inproc_server_key_path(&self.clsid);
        let mut writes: Vec<RegWrite> = Vec::new();
        if let Some(name) = &self.class_name {
            writes.push(
                RegWrite {
                    root: RegRoot::ClassesRoot,
                    key_path: class_key,
                    value_name: None,
                    data: name.clone(),
                },
            );
        }
        writes.push(
            RegWrite {
                root: RegRoot::ClassesRoot,
                key_path: server_key.clone(),
                value_name: None,
                data: String::from_str(server_path),
            },
        );
        writes.push(
            RegWrite {
                root: RegRoot::ClassesRoot,
                key_path: server_key,
                value_name: Some(String::from_str("ThreadingModel")),
                data: String::from_str(self.threading_model.registry_text()),
            },
        );
        writes
    }

    /// The keys deleted when unregistering a class, sub-keys first; keys
    /// already gone count as removed.
    pub fn unregistration_keys(clsid: &Guid) -> (r: Vec<String>)
        ensures
            r@.len() == 2,
            r@[0]@ == inproc_server_key_path(*clsid),
            r@[1]@ == class_key_path(*clsid),
    {
        let mut keys: Vec<String> = Vec::new();
        keys.push(format_inproc_server_key_path(clsid));
        keys.push(format_class_key_path(clsid));
        keys
    }
}

/// Encodes an ASCII string as wide characters, one unit per character.
pub fn ascii_to_utf16(s: &str) -> (r: Vec<u16>)
    requires
        s@.len() < usize::MAX,
        forall|i: int| 0 <= i < s@.len() ==> (s@[i] as u32) < 128,
    ensures
        r@.len() == s@.len(),
        forall|i: int| 0 <= i < s@.len() ==> r@[i] == s@[i] as u16,
{
    let n = s.unicode_len();
    let mut out: Vec<u16> = Vec::new();
    let mut i: usize = 0;
    while i < n
        invariant
            0 <= i <= n,
            n == s@.len(),
            out@.len() == i,
            forall|j: int| 0 <= j < s@.len() ==> (s@[j] as u32) < 128,
            forall|j: int| 0 <= j < i ==> out@[j] == s@[j] as u16,
        decreases n - i,
    {
        let c = s.get_char(i);
        out.push(c as u16);
        i = i + 1;
    }
    out
}

/// The uninstall entry's command line: the executable's path in quotes,
/// the uninstall arguments, and the trailing terminator. Path and arguments
/// come in as wide text without terminators.
pub fn uninstall_command_line(exe_path: &Vec<u16>, args: &Vec<u16>) -> (r: Vec<u16>)
    requires
        exe_path@.len() + args@.len() + 3 <= usize::MAX,
    ensures
        r@ == seq![34u16] + exe_path@ + seq![34u16] + args@ + seq![0u16],
{
    let mut out: Vec<u16> = Vec::new();
    out.push(34);
    let mut i: usize = 0;
    while i < exe_path.len()
        invariant
            0 <= i <= exe_path@.len(),
            exe_path@.len() + args@.len() + 3 <= usize::MAX,
            out@ == seq![34u16] + exe_path@.take(i as int),
        decreases exe_path@.len() - i,
    {
        out.push(exe_path[i]);
        proof {
            assert(out@ =~= seq![34u16] + exe_path@.take(i + 1));
        }
        i = i + 1;
    }
    proof {
        assert(exe_path@.take(exe_path@.len() as int) =~= exe_path@);
    }
    out.push(34);
    let mut j: usize = 0;
    while j < args.len()
        invariant
            0 <= j <= args@.len(),
            exe_path@.len() + args@.len() + 3 <= usize::MAX,
            out@ == seq![34u16] + exe_path@ + seq![34u16] + args@.take(j as int),
        decreases args@.len() - j,
    {
        out.push(args[j]);
        proof {
            assert(out@ =~= seq![34u16] + exe_path@ + seq![34u16] + args@.take(j + 1));
        }
        j = j + 1;
    }
    proof {
        assert(args@.take(args@.len() as int) =~= args@);
    }
    out.push(0);
    proof {
        assert(out@ =~= seq![34u16] + exe_path@ + seq![34u16] + args@ + seq![0u16]);
    }
    out
}

} // verus!
