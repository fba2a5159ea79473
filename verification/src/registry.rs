//! Registration plans for the hosting shell.
//!
//! Installing the engine means writing a handful of string values under
//! well-known registry keys: the class entry with its server path and
//! threading model, and one voice key per offered voice. The paths and values
//! are computed here, exactly; the shell only walks the returned plan and
//! performs one create/set/delete call per entry.

use vstd::prelude::*;
use vstd::string::StringExecFns;

use crate::guid::format_guid;
use crate::guid::guid_text;
use crate::guid::Guid;

verus! {

/// A predefined root the shell opens registry paths under.
#[derive(Clone, Copy, Debug, PartialEq, Eq, Structural)]
pub enum RegRoot {
    /// The machine-wide class registration root.
    ClassesRoot,
    /// The machine-wide software root.
    LocalMachine,
    /// The current user's software root.
    CurrentUser,
}

/// A key under a root: where voice and class entries are created.
pub struct ParentRegKey {
    /// The root the path is relative to.
    pub root: RegRoot,
    /// The path below the root; empty names the root itself.
    pub path: String,
}

/// Whether `c` separates registry path segments.
pub open spec fn is_path_separator(c: char) -> bool {
    c == '\\' || c == '/'
}

/// The separator to insert after `prefix` before appending a segment:
/// nothing when the prefix is empty or already ends in a separator.
pub open spec fn key_separator(prefix: Seq<char>) -> Seq<char> {
    if prefix.len() == 0 || is_path_separator(prefix.last()) {
        Seq::empty()
    } else {
        seq!['\\']
    }
}

/// A sub-key path: the prefix, a separator where one is needed, the segment.
pub open spec fn joined_key(prefix: Seq<char>, sub: Seq<char>) -> Seq<char> {
    prefix + key_separator(prefix) + sub
}

/// Joins a key path and a sub-key name, inserting a separator only where the
/// prefix does not already end in one.
pub fn join_key_path(prefix: &str, sub: &str) -> (r: String)
    ensures
        r@ == joined_key(prefix@, sub@),
{
    let mut out = String::new();
    out.append(prefix);
    let n = prefix.unicode_len();
    if n > 0 {
        let last = prefix.get_char(n - 1);
        if !(last == '\\' || last == '/') {
            out.append("\\");
        }
    }
    out.append(sub);
    proof {
        reveal_strlit("\\");
        assert(out@ =~= joined_key(prefix@, sub@));
    }
    out
}

impl ParentRegKey {
    /// The path of `sub_key` under this key.
    pub fn sub_key_path(&self, sub_key: &str) -> (r: String)
        ensures
            r@ == joined_key(self.path@, sub_key@),
    {
        join_key_path(self.path.as_str(), sub_key)
    }

    /// This key narrowed to one of its sub-keys.
    pub fn join_sub_key(&self, sub_key: &str) -> (r: ParentRegKey)
        ensures
            r.root == self.root,
            r.path@ == joined_key(self.path@, sub_key@),
    {
        ParentRegKey { root: self.root, path: join_key_path(self.path.as_str(), sub_key) }
    }
}

/// One string value to store: the key it lives under is created when absent.
#[derive(Debug, PartialEq, Eq)]
pub struct RegWrite {
    /// Root the key path is relative to.
    pub root: RegRoot,
    /// Path of the key holding the value.
    pub key_path: String,
    /// Name of the value; `None` is the key's default value.
    pub value_name: Option<String>,
    /// The string data to store.
    pub data: String,
}

/// That `w` stores `data` under `name` at `key` below `root`.
pub open spec fn is_write(
    w: RegWrite,
    root: RegRoot,
    key: Seq<char>,
    name: Option<Seq<char>>,
    data: Seq<char>,
) -> bool {
    &&& w.root == root
    &&& w.key_path@ == key
    &&& match name {
        Option::Some(n) => w.value_name matches Option::Some(v) && v@ == n,
        Option::None => w.value_name is None,
    }
    &&& w.data@ == data
}

/// Voice metadata stored beside a voice's registry key.
pub struct VoiceAttributes {
    /// Plain voice name.
    pub name: String,
    /// Voice gender attribute.
    pub gender: String,
    /// Voice age attribute.
    pub age: String,
    /// Voice language identifier attribute.
    pub language: String,
    /// Vendor attribute.
    pub vendor: String,
}

impl VoiceAttributes {
    /// The writes storing these attributes under `voice_key`: the five named
    /// values of the voice's `Attributes` sub-key, in a fixed order.
    pub fn registration_writes(&self, voice_key: &ParentRegKey) -> (r: Vec<RegWrite>)
        ensures
            ({
                let key = joined_key(voice_key.path@, "Attributes"@);
                let root = voice_key.root;
                &&& r@.len() == 5
                &&& is_write(r@[0], root, key, Option::Some("Name"@), self.name@)
                &&& is_write(r@[1], root, key, Option::Some("Gender"@), self.gender@)
                &&& is_write(r@[2], root, key, Option::Some("Age"@), self.age@)
                &&& is_write(r@[3], root, key, Option::Some("Language"@), self.language@)
                &&& is_write(r@[4], root, key, Option::Some("Vendor"@), self.vendor@)
            }),
    {
        let key = voice_key.sub_key_path("Attributes");
        let root = voice_key.root;
        let mut writes: Vec<RegWrite> = Vec::new();
        writes.push(
            RegWrite {
                root,
                key_path: key.clone(),
                value_name: Some(String::from_str("Name")),
                data: self.name.clone(),
            },
        );
        writes.push(
            RegWrite {
                root,
                key_path: key.clone(),
                value_name: Some(String::from_str("Gender")),
                data: self.gender.clone(),
            },
        );
        writes.push(
            RegWrite {
                root,
                key_path: key.clone(),
                value_name: Some(String::from_str("Age")),
                data: self.age.clone(),
            },
        );
        writes.push(
            RegWrite {
                root,
                key_path: key.clone(),
                value_name: Some(String::from_str("Language")),
                data: self.language.clone(),
            },
        );
        writes.push(
            RegWrite {
                root,
                key_path: key,
                value_name: Some(String::from_str("Vendor")),
                data: self.vendor.clone(),
            },
        );
        writes
    }

    /// The key deleted when removing these attributes; a key already gone
    /// counts as removed.
    pub fn removal_key(&self, voice_key: &ParentRegKey) -> (r: String)
        ensures
            r@ == joined_key(voice_key.path@, "Attributes"@),
    {
        voice_key.sub_key_path("Attributes")
    }
}

/// Why a registration plan was refused.
#[derive(Clone, Copy, Debug, PartialEq, Eq, Structural)]
pub enum RegistrationError {
    /// The voice key name holds a path separator and would escape its key.
    KeyNameHasPathSeparator,
}

/// Whether `s` holds a path separator anywhere.
pub open spec fn has_path_separator(s: Seq<char>) -> bool {
    exists|i: int| 0 <= i < s.len() && is_path_separator(s[i])
}

/// Scan for a path separator.
fn find_path_separator(s: &str) -> (r: bool)
    ensures
        r == has_path_separator(s@),
{
    let n = s.unicode_len();
    let mut i: usize = 0;
    while i < n
        invariant
            0 <= i <= n,
            n == s@.len(),
            forall|j: int| 0 <= j < i ==> !is_path_separator(s@[j]),
        decreases n - i,
    {
        let c = s.get_char(i);
        if c == '\\' || c == '/' {
            return true;
        }
        i = i + 1;
    }
    false
}

/// The identifier in braces, as stored in a voice key's class value.
pub open spec fn braced_guid(g: Guid) -> Seq<char> {
    seq!['{'] + guid_text(g) + seq!['}']
}

/// Writes an identifier in braces.
pub fn format_braced_guid(g: &Guid) -> (r: String)
    ensures
        r@ == braced_guid(*g),
{
    let mut out = String::from_str("{");
    let digits = format_guid(g);
    out.append(digits.as_str());
    out.append("}");
    proof {
        reveal_strlit("{");
        reveal_strlit("}");
        assert(out@ =~= braced_guid(*g));
    }
    out
}

/// The registry data describing one voice: its key, display name, the class
/// identifier of the engine serving it, and its attributes.
pub struct VoiceKeyData {
    /// Name of the voice's registry key; must not contain path separators.
    pub key_name: String,
    /// Display name stored as the key's default value.
    pub long_name: String,
    /// Class identifier of the engine that handles this voice.
    pub class_id: Guid,
    /// The voice's attributes.
    pub attributes: VoiceAttributes,
}

impl VoiceKeyData {
    /// The writes registering this voice under a `Tokens` key: the display
    /// name, the engine's class identifier in braces, and the five
    /// attributes. Refused exactly when the key name holds a path separator.
    pub fn registration_writes(&self, tokens_key: &ParentRegKey) -> (r: Result<
        Vec<RegWrite>,
        RegistrationError,
    >)
        ensures
            has_path_separator(self.key_name@) ==> r == Result::<
                Vec<RegWrite>,
                RegistrationError,
            >::Err(RegistrationError::KeyNameHasPathSeparator),
            !has_path_separator(self.key_name@) ==> ({
                let voice_key = joined_key(tokens_key.path@, self.key_name@);
                let attr_key = joined_key(voice_key, "Attributes"@);
                let root = tokens_key.root;
                match r {
                    Result::Ok(w) => {
                        &&& w@.len() == 7
                        &&& is_write(w@[0], root, voice_key, Option::None, self.long_name@)
                        &&& is_write(
                            w@[1],
                            root,
                            voice_key,
                            Option::Some("CLSID"@),
                            braced_guid(self.class_id),
                        )
                        &&& is_write(w@[2], root, attr_key, Option::Some("Name"@), self.attributes.name@)
                        &&& is_write(
                            w@[3],
                            root,
                            attr_key,
                            Option::Some("Gender"@),
                            self.attributes.gender@,
                        )
                        &&& is_write(w@[4], root, attr_key, Option::Some("Age"@), self.attributes.age@)
                        &&& is_write(
                            w@[5],
                            root,
                            attr_key,
                            Option::Some("Language"@),
                            self.attributes.language@,
                        )
                        &&& is_write(
                            w@[6],
                            root,
                            attr_key,
                            Option::Some("Vendor"@),
                            self.attributes.vendor@,
                        )
                    },
                    Result::Err(_) => false,
                }
            }),
    {
        if find_path_separator(self.key_name.as_str()) {
            return Err(RegistrationError::KeyNameHasPathSeparator);
        }
        let voice_key = tokens_key.join_sub_key(self.key_name.as_str());
        let mut writes: Vec<RegWrite> = Vec::new();
        writes.push(
            RegWrite {
                root: voice_key.root,
                key_path: voice_key.path.clone(),
                value_name: None,
                data: self.long_name.clone(),
            },
        );
        writes.push(
            RegWrite {
                root: voice_key.root,
                key_path: voice_key.path.clone(),
                value_name: Some(String::from_str("CLSID")),
                data: format_braced_guid(&self.class_id),
            },
        );
        let mut attr_writes = self.attributes.registration_writes(&voice_key);
        writes.append(&mut attr_writes);
        Ok(writes)
    }

    /// The keys deleted when unregistering this voice, sub-keys first; keys
    /// already gone count as removed.
    pub fn removal_keys(&self, tokens_key: &ParentRegKey) -> (r: Vec<String>)
        ensures
            ({
                let voice_key = joined_key(tokens_key.path@, self.key_name@);
                &&& r@.len() == 2
                &&& r@[0]@ == joined_key(voice_key, "Attributes"@)
                &&& r@[1]@ == voice_key
            }),
    {
        let voice_key = tokens_key.join_sub_key(self.key_name.as_str());
        let attr_key = voice_key.sub_key_path("Attributes");
        let mut keys: Vec<String> = Vec::new();
        keys.push(attr_key);
        keys.push(voice_key.path);
        keys
    }
}

} // verus!
