//! What a user's earlier passes have already dealt with, and the keys it is stored under.

use vstd::hash_set::StringHashSet;
use vstd::prelude::*;
use crate::text;
use crate::text::Text;

verus! {

/// A set of texts.
pub struct TextSet {
    inner: StringHashSet,
}

impl View for TextSet {
    type V = Set<Text>;

    closed spec fn view(&self) -> Set<Text> {
        self.inner@
    }
}

impl TextSet {
    /// The empty set.
    pub fn new() -> (r: Self)
        ensures
            r@ == Set::<Text>::empty(),
    {
        TextSet { inner: StringHashSet::new() }
    }

    /// Adds a text and says whether it was new.
    pub fn insert(&mut self, text: String) -> (r: bool)
        ensures
            final(self)@ == old(self)@.insert(text@),
            r == !old(self)@.contains(text@),
    {
        self.inner.insert(text)
    }

    /// Whether the set holds a text.
    pub fn contains(&self, text: &str) -> (r: bool)
        ensures
            r == self@.contains(text@),
    {
        self.inner.contains(text)
    }
}

/// The prefix of the keys that record a user's settled recordings.
pub open spec fn synced_prefix(nd_username: Text) -> Text {
    ("synced:"@ + nd_username).push(':')
}

/// The prefix of the keys that record the CritiqueBrainz states applied for a user.
pub open spec fn cbsynced_prefix(nd_username: Text) -> Text {
    ("cbsynced:"@ + nd_username).push(':')
}

/// Key prefix for a user's already-reconciled recordings.
pub fn settled_prefix(nd_username: &str) -> (r: String)
    ensures
        r@ == synced_prefix(nd_username@),
{
    let mut key = "synced:".to_owned();
    key.append(nd_username);
    key.push(':');
    key
}

/// Key prefix for the CritiqueBrainz states already applied for one user. Kept apart from the
/// ListenBrainz `synced:` set: these keys encode a desired state rather than a recording that is
/// settled on both sides, so a changed rating produces a new key.
pub fn cb_settled_prefix(nd_username: &str) -> (r: String)
    ensures
        r@ == cbsynced_prefix(nd_username@),
{
    let mut key = "cbsynced:".to_owned();
    key.append(nd_username);
    key.push(':');
    key
}

/// What the keys with `prefix` record: the rests behind it.
pub open spec fn recorded(keys: Seq<Text>, prefix: Text) -> Set<Text> {
    keys.filter_map(|key: Text| text::stripped(key, prefix)).to_set()
}

/// Collects what the listed keys record, stripping the key prefix. A key without the prefix
/// records nothing.
pub fn load_settled(keys: &Vec<String>, prefix: &str) -> (r: TextSet)
    ensures
        r@ == recorded(text::texts(keys@), prefix@),
{
    let mut set = TextSet::new();
    let ghost all = text::texts(keys@);
    let ghost strip = |key: Text| text::stripped(key, prefix@);
    let mut i: usize = 0;
    assert(all.take(0).filter_map(strip) =~= Seq::<Text>::empty());
    assert(set@ =~= all.take(0).filter_map(strip).to_set());
    while i < keys.len()
        invariant
            i <= keys@.len(),
            all == text::texts(keys@),
            strip == |key: Text| text::stripped(key, prefix@),
            set@ == all.take(i as int).filter_map(strip).to_set(),
        decreases keys@.len() - i,
    {
        let ghost before = all.take(i as int).filter_map(strip);
        proof {
            all.lemma_filter_map_take_succ(strip, i as int);
        }
        assert(all[i as int] == keys@[i as int]@);
        match text::strip_prefix(keys[i].as_str(), prefix) {
            Some(rest) => {
                let ghost added = rest@;
                set.insert(rest);
                proof {
                    before.lemma_push_to_set_commute(added);
                }
                assert(all.take(i + 1).filter_map(strip) =~= before.push(added));
            },
            None => {
                assert(all.take(i + 1).filter_map(strip) =~= before);
            },
        }
        i += 1;
    }
    assert(all.take(i as int) =~= all);
    set
}

/// The keys that record some texts under a prefix. A dry run records nothing.
pub open spec fn recording(dry_run: bool, prefix: Text, items: Seq<Text>) -> Seq<Text> {
    if dry_run {
        Seq::empty()
    } else {
        items.map_values(|item: Text| prefix + item)
    }
}

fn mark(dry_run: bool, settled: &mut TextSet, prefix: String, item: &str, persist: &mut Vec<String>)
    ensures
        final(settled)@ == old(settled)@.insert(item@),
        text::texts(final(persist)@) == text::texts(old(persist)@) + recording(
            dry_run,
            prefix@,
            seq![item@],
        ),
{
    settled.insert(item.to_owned());
    if !dry_run {
        let key = prefix.concat(item);
        persist.push(key);
    }
    assert(text::texts(persist@) =~= text::texts(old(persist)@) + recording(
        dry_run,
        prefix@,
        seq![item@],
    ));
}

/// Records a recording as reconciled for a user. Persistence is skipped in dry-run mode.
pub fn mark_settled(
    dry_run: bool,
    settled: &mut TextSet,
    nd_username: &str,
    mbid: &str,
    persist: &mut Vec<String>,
)
    ensures
        final(settled)@ == old(settled)@.insert(mbid@),
        text::texts(final(persist)@) == text::texts(old(persist)@) + recording(
            dry_run,
            synced_prefix(nd_username@),
            seq![mbid@],
        ),
{
    mark(dry_run, settled, settled_prefix(nd_username), mbid, persist)
}

/// Records one applied CritiqueBrainz state for a user. Persistence is skipped in dry-run mode.
pub fn mark_cb_settled(
    dry_run: bool,
    settled: &mut TextSet,
    nd_username: &str,
    state: &str,
    persist: &mut Vec<String>,
)
    ensures
        final(settled)@ == old(settled)@.insert(state@),
        text::texts(final(persist)@) == text::texts(old(persist)@) + recording(
            dry_run,
            cbsynced_prefix(nd_username@),
            seq![state@],
        ),
{
    mark(dry_run, settled, cb_settled_prefix(nd_username), state, persist)
}

} // verus!
