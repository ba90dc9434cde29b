//! Metas, the node types of the data-flow graph.

use crate::common::error::{ErrorKind, NatureError};
use crate::text::{chars_of, copy_texts, parse_u64, parse_u64_text, same_text, split, split_text};
use vstd::prelude::*;
use vstd::string::*;

verus! {

/// What kind of schema a meta is.
#[derive(Debug, Clone, Copy, PartialEq, Eq, Structural)]
pub enum MetaType {
    Business,
    Dynamic,
    Multi,
    Loop,
    Null,
}

/// The kind of meta that the first part of a meta key stands for, if it
/// stands for one: `B` for business, `D` for dynamic, `M` for multi, `L` for
/// loop, `N` for null.
pub open spec fn meta_type_of_prefix(prefix: Seq<char>) -> Option<MetaType> {
    if prefix == seq!['B'] {
        Some(MetaType::Business)
    } else if prefix == seq!['D'] {
        Some(MetaType::Dynamic)
    } else if prefix == seq!['M'] {
        Some(MetaType::Multi)
    } else if prefix == seq!['L'] {
        Some(MetaType::Loop)
    } else if prefix == seq!['N'] {
        Some(MetaType::Null)
    } else {
        None
    }
}

/// The kind of meta that the key `<prefix>:<name>:<version>` names: the key
/// has exactly these three parts, the prefix stands for a kind and the
/// version is a number of at most 32 bits. Nothing for any other text.
pub open spec fn meta_type_of_key(key: Seq<char>) -> Option<MetaType> {
    let parts = split_text(key, ":"@);
    if parts.len() != 3 {
        None
    } else {
        match (meta_type_of_prefix(parts[0]), parse_u64_text(parts[2])) {
            (Some(t), Some(version)) => if version <= u32::MAX {
                Some(t)
            } else {
                None
            },
            _ => None,
        }
    }
}

/// The text of the error that a malformed meta key gives.
pub open spec fn illegal_meta_key() -> Seq<char> {
    "illegal format for meta key"@
}

/// The optional settings of a meta.
#[derive(Debug, Clone)]
pub struct MetaSetting {
    /// The instances carry states and versions.
    pub is_state: bool,
    /// The meta whose instances lend their id to the instances of this one.
    pub master: Option<String>,
    /// The metas that a `Multi` meta stands for.
    pub multi_meta: Vec<String>,
    /// Saved instances are kept in the cache.
    pub cache_saved: bool,
    /// A `Loop` meta of which only the last instance is kept.
    pub only_one: bool,
}

/// The mathematical content of a [`MetaSetting`].
pub struct MetaSettingView {
    pub is_state: bool,
    pub master: Option<Seq<char>>,
    pub multi_meta: Seq<Seq<char>>,
    pub cache_saved: bool,
    pub only_one: bool,
}

impl View for MetaSetting {
    type V = MetaSettingView;

    open spec fn view(&self) -> MetaSettingView {
        MetaSettingView {
            is_state: self.is_state,
            master: match self.master {
                Some(m) => Some(m@),
                None => None,
            },
            multi_meta: self.multi_meta.deep_view(),
            cache_saved: self.cache_saved,
            only_one: self.only_one,
        }
    }
}

impl MetaSetting {
    /// A copy with the same content.
    pub fn duplicate(&self) -> (r: MetaSetting)
        ensures
            r@ == self@,
    {
        MetaSetting {
            is_state: self.is_state,
            master: match &self.master {
                Some(m) => Some(m.clone()),
                None => None,
            },
            multi_meta: copy_texts(&self.multi_meta),
            cache_saved: self.cache_saved,
            only_one: self.only_one,
        }
    }
}

/// A typed schema identifier.
#[derive(Debug, Clone)]
pub struct Meta {
    /// Of the form `<prefix>:<name>:<version>`.
    pub key: String,
    pub meta_type: MetaType,
    /// The declared states, where the meta declares any.
    pub states: Option<String>,
    pub setting: Option<MetaSetting>,
}

/// The mathematical content of a [`Meta`].
pub struct MetaView {
    pub key: Seq<char>,
    pub meta_type: MetaType,
    pub states: Option<Seq<char>>,
    pub setting: Option<MetaSettingView>,
}

impl View for Meta {
    type V = MetaView;

    open spec fn view(&self) -> MetaView {
        MetaView {
            key: self.key@,
            meta_type: self.meta_type,
            states: match self.states {
                Some(s) => Some(s@),
                None => None,
            },
            setting: match self.setting {
                Some(s) => Some(s@),
                None => None,
            },
        }
    }
}

impl MetaView {
    /// The meta bears state: it declares states, or its setting says so.
    pub open spec fn is_state(self) -> bool {
        self.states is Some || (self.setting matches Some(s) && s.is_state)
    }

    /// The setting names `meta` as the master of this meta.
    pub open spec fn check_master(self, meta: Seq<char>) -> bool {
        self.setting matches Some(s) && s.master == Some(meta)
    }

    /// The setting asks for only the last instance to be kept.
    pub open spec fn only_one(self) -> bool {
        self.setting matches Some(s) && s.only_one
    }

    /// The metas whose relations leave this meta: a `Multi` meta stands for
    /// the metas that its setting lists, any other meta for itself.
    pub open spec fn relation_sources(self) -> Seq<Seq<char>> {
        if self.meta_type == MetaType::Multi {
            match self.setting {
                Some(s) => s.multi_meta,
                None => Seq::empty(),
            }
        } else {
            seq![self.key]
        }
    }

    /// The setting asks for saved instances to be cached.
    pub open spec fn need_cache(self) -> bool {
        self.setting matches Some(s) && s.cache_saved
    }
}

impl Meta {
    /// The meta that the key `<prefix>:<name>:<version>` names, without
    /// states and settings. A text that is no such key is refused.
    pub fn from_string(full_key: &str) -> (r: Result<Meta, NatureError>)
        ensures
            match r {
                Ok(m) => meta_type_of_key(full_key@) == Some(m@.meta_type) && m@ == (MetaView {
                    key: full_key@,
                    meta_type: m@.meta_type,
                    states: None,
                    setting: None,
                }),
                Err(e) => meta_type_of_key(full_key@) is None && e.kind() == ErrorKind::Verify
                    && e.message() == illegal_meta_key(),
            },
    {
        let parts = split(full_key, ":");
        assert(parts.deep_view().len() == parts.len());
        if parts.len() != 3 {
            return Err(NatureError::VerifyError("illegal format for meta key".to_owned()));
        }
        let prefix = chars_of(parts[0].as_str());
        assert(parts.deep_view()[0] == prefix@);
        let meta_type = if prefix.len() != 1 {
            None
        } else if prefix[0] == 'B' {
            assert(prefix@ =~= seq!['B']);
            Some(MetaType::Business)
        } else if prefix[0] == 'D' {
            assert(prefix@ =~= seq!['D']);
            Some(MetaType::Dynamic)
        } else if prefix[0] == 'M' {
            assert(prefix@ =~= seq!['M']);
            Some(MetaType::Multi)
        } else if prefix[0] == 'L' {
            assert(prefix@ =~= seq!['L']);
            Some(MetaType::Loop)
        } else if prefix[0] == 'N' {
            assert(prefix@ =~= seq!['N']);
            Some(MetaType::Null)
        } else {
            None
        };
        assert(meta_type == meta_type_of_prefix(prefix@)) by {
            if prefix@.len() == 1 {
                assert(prefix@ =~= seq![prefix@[0]]);
            }
        }
        let version = parse_u64(parts[2].as_str());
        match (meta_type, version) {
            (Some(t), Some(v)) => {
                if v <= 0xffff_ffff {
                    Ok(Meta { key: full_key.to_owned(), meta_type: t, states: None, setting: None })
                } else {
                    Err(NatureError::VerifyError("illegal format for meta key".to_owned()))
                }
            },
            _ => Err(NatureError::VerifyError("illegal format for meta key".to_owned())),
        }
    }

    /// The kind of this meta.
    pub fn get_meta_type(&self) -> (t: MetaType)
        ensures
            t == self@.meta_type,
    {
        self.meta_type
    }

    /// The key of this meta.
    pub fn meta_string(&self) -> (key: String)
        ensures
            key@ == self@.key,
    {
        self.key.clone()
    }

    /// A copy of the setting, where there is one.
    pub fn get_setting(&self) -> (r: Option<MetaSetting>)
        ensures
            match r {
                Some(s) => self@.setting == Some(s@),
                None => self@.setting is None,
            },
    {
        match &self.setting {
            Some(s) => Some(s.duplicate()),
            None => None,
        }
    }

    /// Whether the meta bears state.
    pub fn is_state(&self) -> (r: bool)
        ensures
            r == self@.is_state(),
    {
        if self.states.is_some() {
            return true;
        }
        match &self.setting {
            Some(s) => s.is_state,
            None => false,
        }
    }

    /// Whether the setting names `meta` as the master of this meta.
    pub fn check_master(&self, meta: &str) -> (r: bool)
        ensures
            r == self@.check_master(meta@),
    {
        match &self.setting {
            Some(s) => match &s.master {
                Some(m) => same_text(m.as_str(), meta),
                None => false,
            },
            None => false,
        }
    }

    /// Whether saved instances of this meta are cached.
    pub fn need_cache(&self) -> (r: bool)
        ensures
            r == self@.need_cache(),
    {
        match &self.setting {
            Some(s) => s.cache_saved,
            None => false,
        }
    }

    /// The keys of the metas whose relations are to be planned for an
    /// instance of this meta.
    pub fn relation_sources(&self) -> (r: Vec<String>)
        ensures
            r.deep_view() == self@.relation_sources(),
    {
        if self.meta_type == MetaType::Multi {
            match &self.setting {
                Some(s) => copy_texts(&s.multi_meta),
                None => {
                    let r: Vec<String> = Vec::new();
                    assert(r.deep_view() =~= Seq::<Seq<char>>::empty());
                    r
                },
            }
        } else {
            let r: Vec<String> = vec![self.key.clone()];
            assert(r.deep_view() =~= seq![self.key@]);
            r
        }
    }

    /// A copy with the same content.
    pub fn duplicate(&self) -> (r: Meta)
        ensures
            r@ == self@,
    {
        Meta {
            key: self.key.clone(),
            meta_type: self.meta_type,
            states: match &self.states {
                Some(s) => Some(s.clone()),
                None => None,
            },
            setting: match &self.setting {
                Some(s) => Some(s.duplicate()),
                None => None,
            },
        }
    }
}

} // verus!
