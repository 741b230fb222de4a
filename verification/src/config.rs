//! The settings that the monitoring core reads.

use vstd::prelude::*;
use vstd::string::*;

verus! {

/// The seconds for which a ticket is reused where nothing else is configured.
pub const DEFAULT_TICKET_EXPIRE_SEC: i64 = 600;

/// What a ticket is granted for.
#[derive(Debug, Clone, Copy, PartialEq, Eq, Structural)]
pub enum Grant {
    ClientCredentials,
}

/// The credential profile: the scheme that goes before a token, and what the
/// credential service wants to see.
#[derive(Debug)]
pub struct Secure {
    pub md: String,
    pub client_id: i64,
    pub client_secret: String,
    pub grant: Option<Grant>,
}

impl Secure {
    /// A profile of the given parts.
    pub fn new(md: String, client_id: i64, client_secret: String, grant: Option<Grant>) -> (secure: Secure)
        ensures
            secure == (Secure { md, client_id, client_secret, grant }),
    {
        Secure { md, client_id, client_secret, grant }
    }

    /// The scheme of the profile.
    pub fn get_mod(&self) -> (md: String)
        ensures
            md == self.md,
    {
        self.md.clone()
    }
}

impl Clone for Secure {
    fn clone(&self) -> (copy: Secure)
        ensures
            copy == *self,
    {
        Secure {
            md: self.md.clone(),
            client_id: self.client_id,
            client_secret: self.client_secret.clone(),
            grant: self.grant,
        }
    }
}

/// The settings of the core.
#[derive(Debug)]
pub struct Config {
    /// For how many seconds a ticket is reused; without it every use fetches.
    pub ticket_expire_sec: Option<i64>,
    /// The credential profile; without it no credentials are sent.
    pub secure: Option<Secure>,
}

impl Config {
    /// The settings that hold where no file says otherwise.
    pub fn new_with_defaults() -> (config: Config)
        ensures
            config.ticket_expire_sec == Some(DEFAULT_TICKET_EXPIRE_SEC),
            config.secure is None,
    {
        Config { ticket_expire_sec: Some(DEFAULT_TICKET_EXPIRE_SEC), secure: None }
    }
}

/// Collects settings, starting from the defaults.
#[derive(Debug)]
pub struct Builder {
    config: Config,
}

impl Builder {
    /// The settings collected so far.
    pub closed spec fn spec_config(&self) -> Config {
        self.config
    }

    /// A builder that holds the defaults.
    pub fn new() -> (builder: Builder)
        ensures
            builder.spec_config().ticket_expire_sec == Some(DEFAULT_TICKET_EXPIRE_SEC),
            builder.spec_config().secure is None,
    {
        Builder { config: Config::new_with_defaults() }
    }

    /// Sets the credential profile; an earlier profile is replaced.
    pub fn add_secure(&mut self, md: String, client_id: i64, client_secret: String, grant: Option<Grant>)
        ensures
            final(self).spec_config().ticket_expire_sec == old(self).spec_config().ticket_expire_sec,
            final(self).spec_config().secure == Some(Secure { md, client_id, client_secret, grant }),
    {
        self.config.secure = Some(Secure::new(md, client_id, client_secret, grant));
    }

    /// The settings that were collected.
    pub fn build(self) -> (config: Config)
        ensures
            config == self.spec_config(),
    {
        self.config
    }
}

/// A node of a settings document.
#[derive(Debug)]
pub enum Yaml {
    /// A number with a fraction, as it was written.
    Real(String),
    Integer(i64),
    String(String),
    Boolean(bool),
    Array(Vec<Yaml>),
    /// A mapping: its entries in the order of the document, no key twice.
    Hash(Vec<(Yaml, Yaml)>),
    Alias(usize),
    Null,
    BadValue,
}

/// The place of the first entry under the text key `key` among the first
/// `upto` entries.
pub open spec fn find_key(entries: Seq<(Yaml, Yaml)>, key: Seq<char>, upto: int) -> Option<int>
    decreases upto,
{
    if upto <= 0 {
        None
    } else {
        match find_key(entries, key, upto - 1) {
            Some(i) => Some(i),
            None => if upto - 1 < entries.len() && is_text(entries[upto - 1].0, key) {
                Some(upto - 1)
            } else {
                None
            },
        }
    }
}

/// Whether the node is the text `text`.
pub open spec fn is_text(node: Yaml, text: Seq<char>) -> bool {
    node matches Yaml::String(s) && s@ == text
}

/// The node under the text key `key` of a mapping; nothing for a node that
/// is no mapping or has no such key.
pub open spec fn lookup(node: Yaml, key: Seq<char>) -> Option<Yaml> {
    match node {
        Yaml::Hash(entries) => match find_key(entries@, key, entries@.len() as int) {
            Some(i) => Some(entries@[i].1),
            None => None,
        },
        _ => None,
    }
}

/// The text of a text node.
pub open spec fn text_of(node: Option<Yaml>) -> Option<String> {
    match node {
        Some(Yaml::String(s)) => Some(s),
        _ => None,
    }
}

/// The number of an integer node.
pub open spec fn integer_of(node: Option<Yaml>) -> Option<i64> {
    match node {
        Some(Yaml::Integer(i)) => Some(i),
        _ => None,
    }
}

/// The credential profile that a document holds: the mapping under
/// `secure` with a text `mod`, an integer `client_id` and a text
/// `client_secret`.  A document that lacks any of them holds none.
pub open spec fn secure_of(document: Yaml) -> Option<Secure> {
    match lookup(document, "secure"@) {
        Some(section) => if section is Hash {
            match (
                text_of(lookup(section, "mod"@)),
                integer_of(lookup(section, "client_id"@)),
                text_of(lookup(section, "client_secret"@)),
            ) {
                (Some(md), Some(client_id), Some(client_secret)) => Some(
                    Secure { md, client_id, client_secret, grant: None },
                ),
                _ => None,
            }
        } else {
            None
        },
        None => None,
    }
}

/// The profile after the documents were read in their order: the profile of
/// the last document that holds one, or `before` where none does.
pub open spec fn profiled(before: Option<Secure>, documents: Seq<Yaml>) -> Option<Secure>
    decreases documents.len(),
{
    if documents.len() == 0 {
        before
    } else {
        match secure_of(documents.last()) {
            Some(secure) => Some(secure),
            None => profiled(before, documents.drop_last()),
        }
    }
}

impl Yaml {
    /// The node under the text key `key`, for a mapping that has it.
    pub fn get(&self, key: &str) -> (found: Option<&Yaml>)
        ensures
            match lookup(*self, key@) {
                Some(node) => found matches Some(f) && *f == node,
                None => found is None,
            },
    {
        match self {
            Yaml::Hash(entries) => {
                let wanted = String::from_str(key);
                let mut i: usize = 0;
                while i < entries.len()
                    invariant
                        i <= entries@.len(),
                        wanted@ == key@,
                        *self == Yaml::Hash(*entries),
                        find_key(entries@, key@, i as int) is None,
                    decreases entries@.len() - i,
                {
                    let hit = match &entries[i].0 {
                        Yaml::String(s) => *s == wanted,
                        _ => false,
                    };
                    if hit {
                        proof {
                            lemma_find_key_stays(entries@, key@, i as int + 1, entries@.len() as int);
                        }
                        return Some(&entries[i].1);
                    }
                    i += 1;
                }
                None
            },
            _ => None,
        }
    }

    /// The text of a text node.
    pub fn as_str(&self) -> (text: Option<&String>)
        ensures
            match *self {
                Yaml::String(s) => text matches Some(t) && *t == s,
                _ => text is None,
            },
    {
        match self {
            Yaml::String(s) => Some(s),
            _ => None,
        }
    }

    /// The number of an integer node.
    pub fn as_i64(&self) -> (number: Option<i64>)
        ensures
            number == integer_of(Some(*self)),
    {
        match self {
            Yaml::Integer(i) => Some(*i),
            _ => None,
        }
    }

    /// Whether the node is a mapping.
    pub fn is_hash(&self) -> (hash: bool)
        ensures
            hash == (*self is Hash),
    {
        match self {
            Yaml::Hash(_) => true,
            _ => false,
        }
    }
}

proof fn lemma_find_key_stays(entries: Seq<(Yaml, Yaml)>, key: Seq<char>, found: int, count: int)
    requires
        0 <= found <= count,
        find_key(entries, key, found) is Some,
    ensures
        find_key(entries, key, count) == find_key(entries, key, found),
    decreases count,
{
    if count > found {
        lemma_find_key_stays(entries, key, found, count - 1);
    }
}

fn read_secure(document: &Yaml) -> (secure: Option<Secure>)
    ensures
        secure == secure_of(*document),
{
    let section = match document.get("secure") {
        Some(section) => section,
        None => {
            return None;
        },
    };
    if !section.is_hash() {
        return None;
    }
    let md = match section.get("mod") {
        Some(node) => node.as_str(),
        None => None,
    };
    let client_id = match section.get("client_id") {
        Some(node) => node.as_i64(),
        None => None,
    };
    let client_secret = match section.get("client_secret") {
        Some(node) => node.as_str(),
        None => None,
    };
    match (md, client_id, client_secret) {
        (Some(md), Some(client_id), Some(client_secret)) => Some(
            Secure::new(md.clone(), client_id, client_secret.clone(), None),
        ),
        _ => None,
    }
}

impl Builder {
    /// Reads the documents of a settings file in their order.  Each document
    /// that holds a credential profile replaces the profile collected so far;
    /// nothing else of a document is read.
    pub fn update_from_yaml(&mut self, yaml: Vec<Yaml>)
        ensures
            final(self).spec_config().ticket_expire_sec == old(self).spec_config().ticket_expire_sec,
            final(self).spec_config().secure == profiled(old(self).spec_config().secure, yaml@),
    {
        let ghost before = self.config.secure;
        let mut i: usize = 0;
        while i < yaml.len()
            invariant
                i <= yaml@.len(),
                self.config.ticket_expire_sec == old(self).spec_config().ticket_expire_sec,
                self.config.secure == profiled(before, yaml@.take(i as int)),
            decreases yaml@.len() - i,
        {
            proof {
                assert(yaml@.take(i + 1).drop_last() =~= yaml@.take(i as int));
            }
            match read_secure(&yaml[i]) {
                Some(secure) => {
                    self.config.secure = Some(secure);
                },
                None => {},
            }
            i += 1;
        }
        proof {
            assert(yaml@.take(yaml@.len() as int) =~= yaml@);
        }
    }
}

/// The formats of settings files, by the extension of the file name.
#[derive(Debug, Clone, Copy, PartialEq, Eq, Structural)]
pub enum Format {
    /// A file that is read.
    Yaml,
    /// A file of a known format that is not read.
    Toml,
    /// Any other file.
    Unsupported,
}

/// The format that goes with an extension.
pub open spec fn format_of(extension: Seq<char>) -> Format {
    if extension == "yaml"@ || extension == "yml"@ {
        Format::Yaml
    } else if extension == "toml"@ || extension == "tml"@ {
        Format::Toml
    } else {
        Format::Unsupported
    }
}

/// Tells the format of a settings file from the extension of its name.
pub fn file_format(extension: &str) -> (format: Format)
    ensures
        format == format_of(extension@),
{
    let given = String::from_str(extension);
    if given == String::from_str("yaml") || given == String::from_str("yml") {
        Format::Yaml
    } else if given == String::from_str("toml") || given == String::from_str("tml") {
        Format::Toml
    } else {
        Format::Unsupported
    }
}

} // verus!
