//! Chain-config payloads as the envelope walk hands them over.
//!
//! A chain-config block carries a content region, made of override entries, and a
//! signature over that region. The walk over the envelope belongs to the block
//! format. What it found is held here as plain values, next to the bytes it was found
//! in, and the properties that the rest of the library builds on are checked once,
//! when a [`FramedPayload`] is made.

use vstd::prelude::*;

verus! {

/// The highest identifier that a key byte can carry.
pub const HIGHEST_IDENTIFIER: u8 = 126;

/// One override entry, as numbers and a byte sequence.
pub struct EntryModel {
    pub key_byte: u8,
    pub parameter_id: u8,
    pub bytecode: bool,
    pub value: Seq<u8>,
}

/// One override entry.
#[derive(Debug)]
pub struct ConfigValue {
    /// The key byte as it was written.
    pub key_byte: u8,
    /// The identifier that the key byte carries.
    pub parameter_id: u8,
    /// Whether the value is a program.
    pub bytecode: bool,
    /// The value: a little-endian literal, or a program.
    pub value: Vec<u8>,
}

impl View for ConfigValue {
    type V = EntryModel;

    open spec fn view(&self) -> EntryModel {
        EntryModel {
            key_byte: self.key_byte,
            parameter_id: self.parameter_id,
            bytecode: self.bytecode,
            value: self.value@,
        }
    }
}

/// The models of a run of entries.
pub open spec fn entry_models(entries: Seq<ConfigValue>) -> Seq<EntryModel> {
    entries.map_values(|entry: ConfigValue| entry@)
}

/// Whether no identifier occurs twice.
pub open spec fn distinct_identifiers(entries: Seq<EntryModel>) -> bool {
    forall|i: int, j: int|
        0 <= i < j < entries.len() ==> (#[trigger] entries[i]).parameter_id != (
        #[trigger] entries[j]).parameter_id
}

/// Whether every identifier is one that a key byte can carry.
pub open spec fn usable_identifiers(entries: Seq<EntryModel>) -> bool {
    forall|i: int|
        0 <= i < entries.len() ==> 1 <= (#[trigger] entries[i]).parameter_id
            <= HIGHEST_IDENTIFIER
}

/// The entry for `id`, if there is one.
pub open spec fn find_entry(entries: Seq<EntryModel>, id: u8) -> Option<EntryModel>
    decreases entries.len(),
{
    if entries.len() == 0 {
        None
    } else if entries[0].parameter_id == id {
        Some(entries[0])
    } else {
        find_entry(entries.drop_first(), id)
    }
}

/// Searching finds an entry with the identifier, or there is none.
pub proof fn lemma_find_entry(entries: Seq<EntryModel>, id: u8)
    ensures
        match find_entry(entries, id) {
            Some(entry) => entry.parameter_id == id && entries.contains(entry),
            None => forall|i: int|
                0 <= i < entries.len() ==> (#[trigger] entries[i]).parameter_id != id,
        },
    decreases entries.len(),
{
    if entries.len() > 0 && entries[0].parameter_id != id {
        let rest = entries.drop_first();
        lemma_find_entry(rest, id);
        match find_entry(rest, id) {
            Some(entry) => {
                let i = choose|i: int| 0 <= i < rest.len() && rest[i] == entry;
                assert(entries[i + 1] == entry);
            },
            None => {
                assert forall|i: int| 0 <= i < entries.len() implies (
                #[trigger] entries[i]).parameter_id != id by {
                    if i > 0 {
                        assert(entries[i] == rest[i - 1]);
                    }
                }
            },
        }
    } else if entries.len() > 0 {
        assert(entries[0] == find_entry(entries, id)->0);
    }
}

/// Where identifiers are distinct, an entry is found under its own identifier.
pub proof fn lemma_find_entry_is_unique(entries: Seq<EntryModel>, i: int)
    requires
        distinct_identifiers(entries),
        0 <= i < entries.len(),
    ensures
        find_entry(entries, entries[i].parameter_id) == Some(entries[i]),
{
    let id = entries[i].parameter_id;
    lemma_find_entry(entries, id);
    let entry = find_entry(entries, id)->0;
    let j = choose|j: int| 0 <= j < entries.len() && entries[j] == entry;
    if i < j {
        assert(entries[i].parameter_id != entries[j].parameter_id);
    } else if j < i {
        assert(entries[j].parameter_id != entries[i].parameter_id);
    }
}

/// A chain-config payload: its bytes, the length of its content region, and the
/// entries of that region.
pub struct PayloadModel {
    pub payload: Seq<u8>,
    pub content_len: nat,
    pub entries: Seq<EntryModel>,
}

impl PayloadModel {
    /// What holds of every payload that framing lets through.
    pub open spec fn well_framed(self) -> bool {
        &&& self.content_len <= self.payload.len() <= usize::MAX
        &&& distinct_identifiers(self.entries)
        &&& usable_identifiers(self.entries)
    }

    /// The content region: the bytes that the signature covers.
    pub open spec fn content(self) -> Seq<u8> {
        self.payload.take(self.content_len as int)
    }
}

/// A chain-config payload whose framing is in order.
pub struct FramedPayload {
    payload: Vec<u8>,
    content_len: usize,
    entries: Vec<ConfigValue>,
}

impl View for FramedPayload {
    type V = PayloadModel;

    closed spec fn view(&self) -> PayloadModel {
        PayloadModel {
            payload: self.payload@,
            content_len: self.content_len as nat,
            entries: entry_models(self.entries@),
        }
    }
}

impl FramedPayload {
    /// Every value of the type is well framed.
    #[verifier::type_invariant]
    pub open spec fn is_well_framed(&self) -> bool {
        self@.well_framed()
    }

    /// Takes the bytes of a payload together with what the envelope walk found in
    /// them. `None` means malformed framing: a content region longer than the payload,
    /// an identifier that no key byte can carry, or an identifier used twice.
    pub fn new(payload: Vec<u8>, content_len: usize, entries: Vec<ConfigValue>) -> (framed: Option<
        FramedPayload,
    >)
        ensures
            framed is Some <==> (PayloadModel {
                payload: payload@,
                content_len: content_len as nat,
                entries: entry_models(entries@),
            }).well_framed(),
            framed matches Some(framed) ==> framed@ == (PayloadModel {
                payload: payload@,
                content_len: content_len as nat,
                entries: entry_models(entries@),
            }),
    {
        let ghost models = entry_models(entries@);
        if content_len > payload.len() {
            return None;
        }
        let mut i: usize = 0;
        while i < entries.len()
            invariant
                i <= entries@.len(),
                models == entry_models(entries@),
                forall|k: int|
                    0 <= k < i ==> 1 <= (#[trigger] models[k]).parameter_id
                        <= HIGHEST_IDENTIFIER,
                forall|k: int, l: int|
                    0 <= k < l < i ==> (#[trigger] models[k]).parameter_id != (
                    #[trigger] models[l]).parameter_id,
            decreases entries@.len() - i,
        {
            let id: u8 = entries[i].parameter_id;
            assert(models[i as int].parameter_id == id);
            if id < 1 || id > HIGHEST_IDENTIFIER {
                return None;
            }
            let mut j: usize = 0;
            while j < i
                invariant
                    j <= i < entries@.len(),
                    models == entry_models(entries@),
                    models[i as int].parameter_id == id,
                    forall|k: int| 0 <= k < j ==> (#[trigger] models[k]).parameter_id != id,
                decreases i - j,
            {
                assert(models[j as int].parameter_id == entries@[j as int].parameter_id);
                if entries[j].parameter_id == id {
                    return None;
                }
                j = j + 1;
            }
            i = i + 1;
        }
        Some(FramedPayload { payload, content_len, entries })
    }

    /// The whole payload.
    pub fn payload(&self) -> (payload: &[u8])
        ensures
            payload@ == self@.payload,
    {
        self.payload.as_slice()
    }

    /// The content region.
    pub fn content(&self) -> (content: &[u8])
        ensures
            content@ == self@.content(),
    {
        proof {
            use_type_invariant(self);
        }
        vstd::slice::slice_subrange(self.payload.as_slice(), 0, self.content_len)
    }

    /// The entries, in the order in which they were written.
    pub fn entries(&self) -> (entries: &Vec<ConfigValue>)
        ensures
            entry_models(entries@) == self@.entries,
    {
        &self.entries
    }

    /// The entry for `id`, if the content overrides it.
    pub fn entry(&self, id: u8) -> (found: Option<&ConfigValue>)
        ensures
            match found {
                Some(entry) => find_entry(self@.entries, id) == Some(entry@),
                None => find_entry(self@.entries, id) is None,
            },
    {
        let ghost models = self@.entries;
        let mut i: usize = 0;
        assert(models.skip(0) =~= models);
        while i < self.entries.len()
            invariant
                i <= self.entries@.len(),
                models == entry_models(self.entries@),
                models == self@.entries,
                find_entry(models, id) == find_entry(models.skip(i as int), id),
            decreases self.entries@.len() - i,
        {
            assert(models.skip(i as int)[0] == self.entries@[i as int]@);
            if self.entries[i].parameter_id == id {
                return Some(&self.entries[i]);
            }
            assert(models.skip(i as int).drop_first() =~= models.skip(i + 1));
            i = i + 1;
        }
        None
    }

    /// The bytes of the payload, given up by the value that held them.
    pub fn into_payload(self) -> (payload: Vec<u8>)
        ensures
            payload@ == self@.payload,
    {
        self.payload
    }
}

} // verus!
