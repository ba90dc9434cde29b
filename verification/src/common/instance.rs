//! Instances, the unit of data, and the conditions by which they are looked up.

use crate::common::collections::{TextMap, TextSet};
use crate::text::{decimal, decimal_text, signed_decimal, signed_decimal_text};
use vstd::prelude::*;
use vstd::string::*;

verus! {

/// What separates the parts of an instance key.
pub const SEPARATOR_INS_KEY: &'static str = "|";

/// What separates the dimensions inside a `para` unless a setting says
/// otherwise.
pub const SEPARATOR_INS_PARA: &'static str = "/";

/// The context entry that names the id of the instance a mission produces.
pub const CONTEXT_TARGET_INSTANCE_ID: &'static str = "sys.target_instance_id";

/// The context entry that names the `para` of the instance a mission produces.
pub const CONTEXT_TARGET_INSTANCE_PARA: &'static str = "sys.target_instance_para";

/// A value of a meta, addressed by `(meta, id, para, state_version)`.
#[derive(Debug, Clone)]
pub struct Instance {
    /// The key of the meta that this instance belongs to.
    pub meta: String,
    /// Given by the caller or derived from the content.
    pub id: u64,
    /// A sub-key that shards state within a meta.
    pub para: String,
    /// The payload, opaque to the engine.
    pub content: String,
    /// Entries that the caller sees.
    pub context: TextMap,
    /// Entries that the engine sees.
    pub sys_context: TextMap,
    /// The state flags.
    pub states: TextSet,
    /// The generation of a stateful instance.
    pub state_version: i32,
    /// Milliseconds since the epoch.
    pub create_time: i64,
    /// The key of the upstream instance that produced this one; empty for a
    /// root.
    pub from_key: String,
}

/// The mathematical content of an [`Instance`].
pub struct InstanceView {
    pub meta: Seq<char>,
    pub id: u64,
    pub para: Seq<char>,
    pub content: Seq<char>,
    pub context: Map<Seq<char>, Seq<char>>,
    pub sys_context: Map<Seq<char>, Seq<char>>,
    pub states: Set<Seq<char>>,
    pub state_version: i32,
    pub create_time: i64,
    pub from_key: Seq<char>,
}

impl View for Instance {
    type V = InstanceView;

    open spec fn view(&self) -> InstanceView {
        InstanceView {
            meta: self.meta@,
            id: self.id,
            para: self.para@,
            content: self.content@,
            context: self.context@,
            sys_context: self.sys_context@,
            states: self.states@,
            state_version: self.state_version,
            create_time: self.create_time,
            from_key: self.from_key@,
        }
    }
}

impl DeepView for Instance {
    type V = InstanceView;

    open spec fn deep_view(&self) -> InstanceView {
        self@
    }
}

impl InstanceView {
    /// The instance that holds nothing: empty texts and collections, zero
    /// numbers.
    pub open spec fn empty() -> InstanceView {
        InstanceView {
            meta: Seq::empty(),
            id: 0,
            para: Seq::empty(),
            content: Seq::empty(),
            context: Map::empty(),
            sys_context: Map::empty(),
            states: Set::empty(),
            state_version: 0,
            create_time: 0,
            from_key: Seq::empty(),
        }
    }

    /// The composite key `meta|id|para|state_version`.
    pub open spec fn key(self) -> Seq<char> {
        self.meta + SEPARATOR_INS_KEY@ + decimal(self.id as nat) + SEPARATOR_INS_KEY@ + self.para
            + SEPARATOR_INS_KEY@ + signed_decimal(self.state_version as int)
    }
}

impl Default for Instance {
    fn default() -> (r: Instance)
        ensures
            r@ == InstanceView::empty(),
    {
        Instance {
            meta: String::new(),
            id: 0,
            para: String::new(),
            content: String::new(),
            context: TextMap::new(),
            sys_context: TextMap::new(),
            states: TextSet::new(),
            state_version: 0,
            create_time: 0,
            from_key: String::new(),
        }
    }
}

impl Instance {
    /// The composite key `meta|id|para|state_version` that addresses this
    /// instance.
    pub fn get_key(&self) -> (key: String)
        ensures
            key@ == self@.key(),
    {
        let mut key = self.meta.clone();
        key.append(SEPARATOR_INS_KEY);
        key.append(decimal_text(self.id).as_str());
        key.append(SEPARATOR_INS_KEY);
        key.append(self.para.as_str());
        key.append(SEPARATOR_INS_KEY);
        key.append(signed_decimal_text(self.state_version as i64).as_str());
        key
    }

    /// A copy with the same content.
    pub fn duplicate(&self) -> (r: Instance)
        ensures
            r@ == self@,
    {
        Instance {
            meta: self.meta.clone(),
            id: self.id,
            para: self.para.clone(),
            content: self.content.clone(),
            context: self.context.duplicate(),
            sys_context: self.sys_context.duplicate(),
            states: self.states.duplicate(),
            state_version: self.state_version,
            create_time: self.create_time,
            from_key: self.from_key.clone(),
        }
    }
}

/// The fields by which instances are looked up: an exact key, or bounds for a
/// range scan.
#[derive(Debug, Clone)]
pub struct KeyCondition {
    pub id: u64,
    pub meta: String,
    /// Only keys greater than this bound.
    pub key_gt: String,
    /// Only keys greater than or equal to this bound.
    pub key_ge: String,
    /// Only keys less than this bound.
    pub key_lt: String,
    /// Only keys less than or equal to this bound.
    pub key_le: String,
    pub para: String,
    pub state_version: i32,
    /// Only instances created at or after this time, in milliseconds.
    pub time_ge: Option<i64>,
    /// Only instances created before this time, in milliseconds.
    pub time_lt: Option<i64>,
    /// The most rows wanted.
    pub limit: i32,
}

/// The mathematical content of a [`KeyCondition`].
pub struct KeyConditionView {
    pub id: u64,
    pub meta: Seq<char>,
    pub key_gt: Seq<char>,
    pub key_ge: Seq<char>,
    pub key_lt: Seq<char>,
    pub key_le: Seq<char>,
    pub para: Seq<char>,
    pub state_version: i32,
    pub time_ge: Option<i64>,
    pub time_lt: Option<i64>,
    pub limit: i32,
}

impl View for KeyCondition {
    type V = KeyConditionView;

    open spec fn view(&self) -> KeyConditionView {
        KeyConditionView {
            id: self.id,
            meta: self.meta@,
            key_gt: self.key_gt@,
            key_ge: self.key_ge@,
            key_lt: self.key_lt@,
            key_le: self.key_le@,
            para: self.para@,
            state_version: self.state_version,
            time_ge: self.time_ge,
            time_lt: self.time_lt,
            limit: self.limit,
        }
    }
}

impl KeyConditionView {
    /// The condition that addresses one instance exactly: no bounds, no time
    /// window, one row.
    pub open spec fn exact(
        id: u64,
        meta: Seq<char>,
        para: Seq<char>,
        state_version: i32,
    ) -> KeyConditionView {
        KeyConditionView {
            id,
            meta,
            key_gt: Seq::empty(),
            key_ge: Seq::empty(),
            key_lt: Seq::empty(),
            key_le: Seq::empty(),
            para,
            state_version,
            time_ge: None,
            time_lt: None,
            limit: 1,
        }
    }
}

impl KeyCondition {
    /// The condition that addresses the instance `(meta, id, para,
    /// state_version)`.
    pub fn new(id: u64, meta: &str, para: &str, state_version: i32) -> (r: KeyCondition)
        ensures
            r@ == KeyConditionView::exact(id, meta@, para@, state_version),
    {
        KeyCondition {
            id,
            meta: meta.to_owned(),
            key_gt: String::new(),
            key_ge: String::new(),
            key_lt: String::new(),
            key_le: String::new(),
            para: para.to_owned(),
            state_version,
            time_ge: None,
            time_lt: None,
            limit: 1,
        }
    }
}

/// Names an instance by its meta, its id and the upstream key it came from.
#[derive(Debug, Clone)]
pub struct IDAndFrom {
    pub id: u64,
    pub meta: String,
    pub from_key: String,
}

} // verus!
