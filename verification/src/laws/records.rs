//! The keys under which a pass records what it has dealt with.

use vstd::prelude::*;
use crate::critiquebrainz;
use crate::critiquebrainz::{CbEntity, CbRule};
use crate::mbid;
use crate::settled;
use crate::text;
use crate::text::Text;

verus! {

/// What was recorded under a prefix is what the listed keys give back: a text is settled just when
/// its key is listed.
pub proof fn listed_keys_give_back_what_was_recorded(keys: Seq<Text>, prefix: Text, item: Text)
    ensures
        settled::recorded(keys, prefix).contains(item) <==> keys.contains(prefix + item),
    decreases keys.len(),
{
    let strip = |key: Text| text::stripped(key, prefix);
    let rests = keys.filter_map(strip);
    if rests.contains(item) {
        keys.lemma_filter_map_contains(strip, item);
        let key = choose|key: Text| #[trigger] keys.contains(key) && strip(key) == Some(item);
        assert(key =~= prefix + item);
    }
    if keys.contains(prefix + item) {
        let i = choose|i: int| 0 <= i < keys.len() && keys[i] == prefix + item;
        assert((prefix + item).skip(prefix.len() as int) =~= item);
        assert(prefix.is_prefix_of(prefix + item));
        assert(strip(keys[i]) == Some(item));
        picked_is_kept(keys, strip, i);
    }
}

/// What a function picks of an element of a sequence is among what it picks of the sequence.
pub proof fn picked_is_kept<A, B>(s: Seq<A>, f: spec_fn(A) -> Option<B>, i: int)
    requires
        0 <= i < s.len(),
        f(s[i]) is Some,
    ensures
        s.filter_map(f).contains(f(s[i])->0),
    decreases s.len(),
{
    let all = s.filter_map(f);
    let rest = s.drop_last().filter_map(f);
    if i == s.len() - 1 {
        assert(all == rest + seq![f(s[i])->0]);
        assert(all[all.len() - 1] == f(s[i])->0);
    } else {
        picked_is_kept(s.drop_last(), f, i);
        let j = choose|j: int| 0 <= j < rest.len() && rest[j] == f(s[i])->0;
        assert(all[j] == rest[j]);
    }
}

proof fn same_length_ends(a: Text, x: Text, b: Text, y: Text)
    requires
        a + x == b + y,
        x.len() == y.len(),
    ensures
        a == b,
        x == y,
{
    assert((a + x).len() == a.len() + x.len());
    assert((b + y).len() == b.len() + y.len());
    assert(a =~= (a + x).take(a.len() as int));
    assert(b =~= (b + y).take(a.len() as int));
    assert(x =~= (a + x).skip(a.len() as int));
    assert(y =~= (b + y).skip(a.len() as int));
}

/// A key that records a recording for one user settles it for no other user: where the key of
/// `other` is read as one of `user`, and gives a recording, the two are the same user and the
/// recording is the one that was recorded.
pub proof fn recordings_are_settled_per_user(user: Text, mbid: Text, other: Text, recorded: Text)
    requires
        mbid::mbid_shaped(mbid),
        mbid::mbid_shaped(recorded),
        text::stripped(
            settled::synced_prefix(other) + recorded,
            settled::synced_prefix(user),
        ) == Some(mbid),
    ensures
        user == other,
        mbid == recorded,
{
    let key = settled::synced_prefix(other) + recorded;
    assert(key =~= settled::synced_prefix(user) + mbid);
    same_length_ends(
        settled::synced_prefix(user),
        mbid,
        settled::synced_prefix(other),
        recorded,
    );
    users_of_equal_prefixes("synced:"@, user, other);
}

proof fn users_of_equal_prefixes(head: Text, user: Text, other: Text)
    requires
        (head + user).push(':') == (head + other).push(':'),
    ensures
        user == other,
{
    assert((head + user).push(':').drop_last() =~= head + user);
    assert((head + other).push(':').drop_last() =~= head + other);
    assert((head + user).skip(head.len() as int) =~= user);
    assert((head + other).skip(head.len() as int) =~= other);
}

spec fn colons(s: Text) -> nat {
    s.filter(|c: char| c == ':').len()
}

proof fn colons_add_up(a: Text, b: Text)
    ensures
        colons(a + b) == colons(a) + colons(b),
{
    Seq::filter_distributes_over_add(a, b, |c: char| c == ':');
}

proof fn colons_of_one(c: char)
    ensures
        colons(seq![c]) == if c == ':' {
            1nat
        } else {
            0nat
        },
{
    reveal(Seq::filter);
    assert(seq![c].drop_last() =~= Seq::<char>::empty());
    assert(Seq::<char>::empty().filter(|c: char| c == ':').len() == 0);
}

proof fn no_colons(s: Text)
    ensures
        colons(s) == 0 <==> !s.contains(':'),
    decreases s.len(),
{
    reveal(Seq::filter);
    if s.len() > 0 {
        no_colons(s.drop_last());
        if s.contains(':') {
            let i = choose|i: int| 0 <= i < s.len() && s[i] == ':';
            if i < s.len() - 1 {
                assert(s.drop_last()[i] == ':');
            }
        }
        if s.drop_last().contains(':') {
            let i = choose|i: int| 0 <= i < s.drop_last().len() && s.drop_last()[i] == ':';
            assert(s[i] == ':');
        }
    }
}

/// The colons of a state key: one behind the name, one behind the MBID, and one behind the rating
/// where it is set.
proof fn colons_of_state_key(entity: CbEntity, mbid: Text, rating: int, rule: CbRule)
    requires
        mbid::mbid_shaped(mbid),
    ensures
        2 <= colons(critiquebrainz::state_key(entity, mbid, rating, rule)) <= 3,
{
    let key = critiquebrainz::state_key(entity, mbid, rating, rule);
    let name = entity.name();
    let rated = critiquebrainz::rating_part(rating, rule);
    let starred = critiquebrainz::favourite_part(rating, rule);
    critiquebrainz::names_are_plain_and_differ(entity, entity);
    no_colons(name);
    no_colons(mbid);
    colons_of_one(':');
    assert(key =~= name + seq![':'] + mbid + seq![':'] + rated + starred);
    colons_add_up(name, seq![':']);
    colons_add_up(name + seq![':'], mbid);
    colons_add_up(name + seq![':'] + mbid, seq![':']);
    colons_add_up(name + seq![':'] + mbid + seq![':'], rated);
    colons_add_up(name + seq![':'] + mbid + seq![':'] + rated, starred);
    assert(colons(starred) == 0) by {
        no_colons(starred);
    }
    if rule.sync_rating {
        let head = seq!['r'] + text::decimal(rating);
        critiquebrainz::decimal_has_no_colon(rating);
        no_colons(head);
        assert(rated =~= head + seq![':']);
        colons_add_up(head, seq![':']);
    } else {
        no_colons(rated);
    }
}

/// A state key does not end in another state key behind a colon.
proof fn state_keys_do_not_nest(
    x: Text,
    entity1: CbEntity,
    mbid1: Text,
    r1: int,
    rule1: CbRule,
    entity2: CbEntity,
    mbid2: Text,
    r2: int,
    rule2: CbRule,
)
    requires
        mbid::mbid_shaped(mbid1),
        mbid::mbid_shaped(mbid2),
    ensures
        x.push(':') + critiquebrainz::state_key(entity1, mbid1, r1, rule1)
            != critiquebrainz::state_key(entity2, mbid2, r2, rule2),
{
    let inner = critiquebrainz::state_key(entity1, mbid1, r1, rule1);
    let outer = critiquebrainz::state_key(entity2, mbid2, r2, rule2);
    let rest = mbid2.push(':') + (critiquebrainz::rating_part(r2, rule2)
        + critiquebrainz::favourite_part(r2, rule2));
    let inner_rest = (mbid1.push(':') + critiquebrainz::rating_part(r1, rule1))
        + critiquebrainz::favourite_part(r1, rule1);
    colons_of_state_key(entity1, mbid1, r1, rule1);
    colons_of_state_key(entity2, mbid2, r2, rule2);
    colons_of_one(':');
    critiquebrainz::names_are_plain_and_differ(entity1, entity2);
    critiquebrainz::names_are_plain_and_differ(entity2, entity1);
    if x.push(':') + inner == outer {
        assert(outer =~= x + seq![':'] + inner);
        colons_add_up(x + seq![':'], inner);
        colons_add_up(x, seq![':']);
        no_colons(x);
        assert(outer =~= entity2.name().push(':') + rest);
        text::split_is_unique(x, inner, entity2.name(), rest, ':');
        assert(inner =~= entity1.name().push(':') + inner_rest);
        assert(!mbid2.contains(':'));
        text::split_is_unique(
            entity1.name(),
            inner_rest,
            mbid2,
            critiquebrainz::rating_part(r2, rule2) + critiquebrainz::favourite_part(r2, rule2),
            ':',
        );
    }
}

/// A key that records an applied state for one user settles it for no other user: where the key of
/// `other` is read as one of `user`, and gives a state, the two are the same user and the state is
/// the one that was recorded.
pub proof fn states_are_settled_per_user(
    user: Text,
    entity1: CbEntity,
    mbid1: Text,
    r1: int,
    rule1: CbRule,
    other: Text,
    entity2: CbEntity,
    mbid2: Text,
    r2: int,
    rule2: CbRule,
)
    requires
        mbid::mbid_shaped(mbid1),
        mbid::mbid_shaped(mbid2),
        text::stripped(
            settled::cbsynced_prefix(other) + critiquebrainz::state_key(
                entity2,
                mbid2,
                r2,
                rule2,
            ),
            settled::cbsynced_prefix(user),
        ) == Some(critiquebrainz::state_key(entity1, mbid1, r1, rule1)),
    ensures
        user == other,
        critiquebrainz::state_key(entity1, mbid1, r1, rule1) == critiquebrainz::state_key(
            entity2,
            mbid2,
            r2,
            rule2,
        ),
{
    let state1 = critiquebrainz::state_key(entity1, mbid1, r1, rule1);
    let state2 = critiquebrainz::state_key(entity2, mbid2, r2, rule2);
    assert(settled::cbsynced_prefix(other) + state2 =~= settled::cbsynced_prefix(user) + state1);
    let x = same_key_nests("cbsynced:"@, user, state1, other, state2);
    state_keys_do_not_nest(x, entity2, mbid2, r2, rule2, entity1, mbid1, r1, rule1);
    state_keys_do_not_nest(x, entity1, mbid1, r1, rule1, entity2, mbid2, r2, rule2);
}

/// Two users whose keys are the same are the same user, or one recorded text ends in the other.
proof fn same_key_nests(head: Text, user: Text, s1: Text, other: Text, s2: Text) -> (x: Text)
    requires
        (head + other).push(':') + s2 == (head + user).push(':') + s1,
    ensures
        (user == other && s1 == s2) || s1 == x.push(':') + s2 || s2 == x.push(':') + s1,
{
    let key = (head + other).push(':') + s2;
    let n = head.len() as int;
    let a = user.len() as int;
    let b = other.len() as int;
    assert(key.len() == n + a + 1 + s1.len());
    assert(key.len() == n + b + 1 + s2.len());
    assert(key[n + a] == ':');
    assert(key[n + b] == ':');
    assert(s1 =~= key.skip(n + a + 1));
    assert(s2 =~= key.skip(n + b + 1));
    if a < b {
        let x = other.skip(a + 1);
        assert(x.push(':') + s2 =~= key.skip(n + a + 1));
        x
    } else if b < a {
        let x = user.skip(b + 1);
        assert(x.push(':') + s1 =~= key.skip(n + b + 1));
        x
    } else {
        same_length_ends((head + user).push(':'), s1, (head + other).push(':'), s2);
        users_of_equal_prefixes(head, user, other);
        user
    }
}

/// A set holds every text that one of the keys records.
pub open spec fn remembers(known: Set<Text>, keys: Seq<Text>, prefix: Text) -> bool {
    forall|item: Text| #[trigger] keys.contains(prefix + item) ==> known.contains(item)
}

/// What the listed keys record is what is settled at the beginning.
pub proof fn listed_keys_are_remembered(keys: Seq<Text>, prefix: Text)
    ensures
        remembers(settled::recorded(keys, prefix), keys, prefix),
{
    assert forall|item: Text| #[trigger] keys.contains(prefix + item) implies settled::recorded(
        keys,
        prefix,
    ).contains(item) by {
        listed_keys_give_back_what_was_recorded(keys, prefix, item);
    }
}

/// What is recorded on the way is settled too.
pub proof fn recording_is_remembered(
    known: Set<Text>,
    keys: Seq<Text>,
    dry_run: bool,
    prefix: Text,
    done: Seq<Text>,
)
    requires
        remembers(known, keys, prefix),
    ensures
        remembers(
            known.union(done.to_set()),
            keys + settled::recording(dry_run, prefix, done),
            prefix,
        ),
{
    let added = settled::recording(dry_run, prefix, done);
    assert forall|item: Text| #[trigger] (keys + added).contains(prefix + item) implies known.union(
        done.to_set(),
    ).contains(item) by {
        let i = choose|i: int|
            0 <= i < (keys + added).len() && (keys + added)[i] == prefix + item;
        if i < keys.len() {
            assert(keys[i] == prefix + item);
            assert(keys.contains(prefix + item));
        } else {
            let j = i - keys.len();
            assert(added[j] == prefix + done[j]);
            assert((prefix + done[j]).skip(prefix.len() as int) =~= done[j]);
            assert((prefix + item).skip(prefix.len() as int) =~= item);
            assert(done.contains(item));
        }
    }
}

/// Where nothing is recorded, nothing more is to be settled.
pub proof fn nothing_more_is_remembered(known: Set<Text>, keys: Seq<Text>, prefix: Text)
    requires
        remembers(known, keys, prefix),
    ensures
        remembers(known, keys + Seq::<Text>::empty(), prefix),
{
    assert(keys + Seq::<Text>::empty() =~= keys);
}

} // verus!
