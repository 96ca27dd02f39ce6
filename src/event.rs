use vstd::prelude::*;

verus! {

/// Kind of a short text note.
pub const KIND_TEXT_NOTE: u16 = 1;

/// Kind of a relay-list event.
pub const KIND_RELAY_LIST: u16 = 10002;

/// Kind of a repost.
pub const KIND_REPOST: u16 = 6;

/// Kind of a reaction.
pub const KIND_REACTION: u16 = 7;

/// Kind of a zap receipt.
pub const KIND_ZAP_RECEIPT: u16 = 9735;

/// Kind of profile metadata.
pub const KIND_METADATA: u16 = 0;

/// A protocol event held as plain values: hex identifiers, a unix time,
/// a kind, the content and the tag arrays.
pub struct Event {
    pub id: String,
    pub pubkey: String,
    pub created_at: u64,
    pub kind: u16,
    pub content: String,
    pub tags: Vec<Vec<String>>,
    pub sig: String,
}

/// The tag arrays of an event, as sequences of character sequences.
pub type TagsView = Seq<Seq<Seq<char>>>;

impl Event {
    pub open spec fn tags_view(&self) -> TagsView {
        self.tags.deep_view()
    }
}

/// The element at `i` of a tag, if the tag has one.
pub open spec fn tag_at(tag: Seq<Seq<char>>, i: int) -> Option<Seq<char>> {
    if 0 <= i < tag.len() {
        Some(tag[i])
    } else {
        None
    }
}

/// A tag with a name and at least one value.
pub open spec fn tag_has(tag: Seq<Seq<char>>, name: Seq<char>) -> bool {
    tag.len() >= 2 && tag[0] == name
}

/// `s` equals the literal `lit`.
pub fn same_text(s: &String, lit: &str) -> (r: bool)
    ensures
        r == (s@ == lit@),
{
    let l = lit.to_owned();
    *s == l
}

/// The tag at `i` is named `name` and carries a value.
pub fn tag_is(tag: &Vec<String>, name: &str) -> (r: bool)
    ensures
        r == tag_has(tag.deep_view(), name@),
{
    if tag.len() < 2 {
        return false;
    }
    same_text(&tag[0], name)
}

} // verus!

verus! {

impl Event {
    /// Two events with the same field values.
    pub open spec fn same_as(&self, o: &Event) -> bool {
        &&& self.id@ == o.id@
        &&& self.pubkey@ == o.pubkey@
        &&& self.created_at == o.created_at
        &&& self.kind == o.kind
        &&& self.content@ == o.content@
        &&& self.tags_view() == o.tags_view()
        &&& self.sig@ == o.sig@
    }

    /// A copy of the event.
    pub fn copy(&self) -> (r: Event)
        ensures
            r.same_as(self),
    {
        let mut tags: Vec<Vec<String>> = Vec::new();
        let mut i: usize = 0;
        while i < self.tags.len()
            invariant
                i <= self.tags.len(),
                tags.deep_view() == self.tags_view().take(i as int),
            decreases self.tags.len() - i,
        {
            let src = &self.tags[i];
            let mut tag: Vec<String> = Vec::new();
            let mut j: usize = 0;
            while j < src.len()
                invariant
                    j <= src.len(),
                    tag.deep_view() == src.deep_view().take(j as int),
                decreases src.len() - j,
            {
                let ghost prev = tag.deep_view();
                tag.push(src[j].clone());
                assert(tag.deep_view() =~= src.deep_view().take(j + 1)) by {
                    assert(tag.deep_view() =~= prev.push(src[j as int]@));
                }
                j += 1;
            }
            assert(src.deep_view().take(j as int) =~= src.deep_view());
            let ghost prev = tags.deep_view();
            tags.push(tag);
            assert(tags.deep_view() =~= self.tags_view().take(i + 1)) by {
                assert(tags.deep_view() =~= prev.push(self.tags_view()[i as int]));
            }
            i += 1;
        }
        assert(self.tags_view().take(i as int) =~= self.tags_view());
        Event {
            id: self.id.clone(),
            pubkey: self.pubkey.clone(),
            created_at: self.created_at,
            kind: self.kind,
            content: self.content.clone(),
            tags,
            sig: self.sig.clone(),
        }
    }
}

} // verus!
