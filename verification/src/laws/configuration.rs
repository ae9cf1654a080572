//! How the settings follow from the configuration, value by value.

use vstd::prelude::*;
use crate::critiquebrainz::{CbEntity, CbRule};
use crate::laws::records;
use crate::protocol::NoteView;
use crate::settings;
use crate::settings::{ConfigValues, LinkConfigView, UserLinkView};
use crate::text;
use crate::text::Text;

verus! {

/// The word `true`, each letter in either case.
pub open spec fn says_true(s: Text) -> bool {
    &&& s.len() == 4
    &&& s[0] == 't' || s[0] == 'T'
    &&& s[1] == 'r' || s[1] == 'R'
    &&& s[2] == 'u' || s[2] == 'U'
    &&& s[3] == 'e' || s[3] == 'E'
}

/// A flag follows its own value: where it is given, the word `true` in any case switches it on and
/// anything else switches it off; where it is not, the flag is on.
pub open spec fn follows(flag: bool, value: Option<String>) -> bool {
    match value {
        Some(value) => flag == says_true(value@),
        None => flag,
    }
}

proof fn the_word_true(s: Text)
    ensures
        text::ascii_lower(s) == text::ascii_lower("true"@) <==> says_true(s),
{
    reveal_strlit("true");
    let lower = text::ascii_lower("true"@);
    assert(lower =~= seq!['t', 'r', 'u', 'e']);
    let low = text::ascii_lower(s);
    if says_true(s) {
        assert(low =~= lower);
    }
    if low == lower {
        assert(low.len() == 4);
        assert(low[0] == 't');
        assert(low[1] == 'r');
        assert(low[2] == 'u');
        assert(low[3] == 'e');
    }
}

/// Each flag of the settings follows the configuration value of its own name.
pub proof fn each_flag_follows_its_own_value(config: ConfigValues, version: Text)
    ensures
        ({
            let settings = settings::configured(config, version);
            &&& follows(settings.sync_inbound, config.sync_inbound)
            &&& follows(settings.sync_outbound, config.sync_outbound)
            &&& follows(settings.dry_run, config.dry_run)
        }),
{
    if let Some(value) = config.sync_inbound {
        the_word_true(value@);
    }
    if let Some(value) = config.sync_outbound {
        the_word_true(value@);
    }
    if let Some(value) = config.dry_run {
        the_word_true(value@);
    }
}

/// A number follows its own value: the given one where it is within the bounds, the bound that it
/// is beyond where it is not, and the default where none is given.
pub open spec fn kept_within(n: int, value: Option<i64>, default: int, low: int, high: int) -> bool {
    match value {
        Some(value) => {
            &&& low <= value <= high ==> n == value
            &&& value < low ==> n == low
            &&& value > high ==> n == high
        },
        None => n == default,
    }
}

/// Each number of the settings follows the configuration value of its own name: batches of one to
/// a thousand, gaps of a second to a minute, and at least one change per pass.
pub proof fn each_number_follows_its_own_value(config: ConfigValues, version: Text)
    ensures
        ({
            let settings = settings::configured(config, version);
            &&& kept_within(settings.batch_size, config.batch_size, 100, 1, 1000)
            &&& kept_within(settings.request_delay_ms, config.request_delay_ms, 1000, 1000, 60000)
            &&& kept_within(settings.max_per_run, config.max_per_run, 500, 1, i64::MAX as int)
        }),
{
}

/// The rule that a configured one comes to: its threshold counts only on the scale of zero to five.
pub open spec fn comes_to(rule: CbRule, configured: CbRule) -> bool {
    &&& rule.sync_rating == configured.sync_rating
    &&& 0 <= configured.favorite_at <= 5 ==> rule.favorite_at == configured.favorite_at
    &&& !(0 <= configured.favorite_at <= 5) ==> rule.favorite_at == 0
}

/// The configuration value for the rule of each kind.
pub open spec fn rule_value(config: ConfigValues, entity: CbEntity) -> Option<CbRule> {
    match entity {
        CbEntity::Artist => config.cb_sync_artists,
        CbEntity::ReleaseGroup => config.cb_sync_albums,
        CbEntity::Recording => config.cb_sync_recordings,
    }
}

/// The place of each kind in the order in which the rules are dealt with.
pub open spec fn turn(entity: CbEntity) -> int {
    match entity {
        CbEntity::Artist => 0,
        CbEntity::ReleaseGroup => 1,
        CbEntity::Recording => 2,
    }
}

/// A kind has a rule just when its configuration value asks for an action, ratings or favourites,
/// and the rule is what that value comes to. Artists come before albums and albums before
/// recordings, each kind once.
pub proof fn each_rule_follows_its_own_value(
    config: ConfigValues,
    version: Text,
    entity: CbEntity,
    rule: CbRule,
)
    ensures
        ({
            let rules = settings::configured(config, version).cb_rules;
            &&& rules.contains((entity, rule)) <==> {
                &&& rule_value(config, entity) matches Some(configured) && comes_to(rule, configured)
                &&& rule.sync_rating || rule.favorite_at != 0
            }
            &&& forall|i: int, j: int|
                0 <= i < j < rules.len() ==> turn((#[trigger] rules[i]).0) < turn(
                    (#[trigger] rules[j]).0,
                )
        }),
{
    let a = settings::enabled_rule(CbEntity::Artist, config.cb_sync_artists);
    let b = settings::enabled_rule(CbEntity::ReleaseGroup, config.cb_sync_albums);
    let c = settings::enabled_rule(CbEntity::Recording, config.cb_sync_recordings);
    let rules = settings::configured(config, version).cb_rules;
    assert(rules == a + b + c);
    assert(a.len() <= 1 && b.len() <= 1 && c.len() <= 1);
    if rule_value(config, entity) matches Some(configured) && comes_to(rule, configured) && (
    rule.sync_rating || rule.favorite_at != 0) {
        let at = match entity {
            CbEntity::Artist => 0,
            CbEntity::ReleaseGroup => a.len() as int,
            CbEntity::Recording => (a.len() + b.len()) as int,
        };
        assert(rule == settings::rule_on_scale(rule_value(config, entity)->0));
        assert(rules[at] == (entity, rule));
    }
}

/// The link that an entry makes, where it is complete: each value is that of the entry without the
/// white space around it, and an empty CritiqueBrainz username is none.
pub open spec fn makes(entry: LinkConfigView, link: UserLinkView) -> bool {
    &&& link.nd_username == text::trim(entry.navidrome_username)
    &&& link.token == text::trim(entry.listenbrainz_token)
    &&& match link.cb_username {
        Some(username) => username.len() > 0 && username == text::trim(
            entry.critiquebrainz_username,
        ),
        None => text::trim(entry.critiquebrainz_username).len() == 0,
    }
}

/// An entry with a Navidrome username and a token.
pub open spec fn complete(entry: LinkConfigView) -> bool {
    text::trim(entry.navidrome_username).len() > 0 && text::trim(entry.listenbrainz_token).len() > 0
}

/// The complete entries of the configuration make the links, one each and in their order: an entry
/// more makes one link more behind the others where it is complete, and none where it is not.
pub proof fn each_complete_entry_makes_a_link(entries: Seq<LinkConfigView>, entry: LinkConfigView)
    ensures
        settings::all_linked(Seq::<LinkConfigView>::empty()).len() == 0,
        ({
            let before = settings::all_linked(entries);
            let after = settings::all_linked(entries.push(entry));
            if complete(entry) {
                &&& after.len() == before.len() + 1
                &&& before.is_prefix_of(after)
                &&& makes(entry, after.last())
            } else {
                after == before
            }
        }),
{
    let pick = |e: LinkConfigView| settings::linked(e);
    let all = entries.push(entry);
    assert(all.drop_last() =~= entries);
    let before = settings::all_linked(entries);
    let after = settings::all_linked(all);
    assert(after == all.filter_map(pick));
    reveal(Seq::filter_map);
    if complete(entry) {
        assert(after =~= before.push(settings::linked(entry)->0));
        assert(before =~= after.take(before.len() as int));
    } else {
        assert(after =~= before);
    }
}

/// The links of the settings are those of the configured entries.
pub proof fn the_links_are_those_of_the_entries(config: ConfigValues, version: Text)
    ensures
        ({
            let links = settings::configured(config, version).links;
            match config.user_links {
                Some(entries) => links == settings::all_linked(
                    entries@.map_values(|e: settings::LinkConfig| e@),
                ),
                None => links.len() == 0,
            }
        }),
{
}

/// There are settings just when some entry of the configuration is complete.
pub proof fn there_are_links_where_an_entry_is_complete(entries: Seq<LinkConfigView>)
    ensures
        settings::all_linked(entries).len() > 0 <==> exists|i: int|
            0 <= i < entries.len() && complete(#[trigger] entries[i]),
{
    let pick = |e: LinkConfigView| settings::linked(e);
    let links = settings::all_linked(entries);
    if links.len() > 0 {
        assert(links.contains(links[0]));
        entries.lemma_filter_map_contains(pick, links[0]);
        let e = choose|e: LinkConfigView| #[trigger]
            entries.contains(e) && pick(e) == Some(links[0]);
        let i = choose|i: int| 0 <= i < entries.len() && entries[i] == e;
        assert(complete(entries[i]));
    }
    if exists|i: int| 0 <= i < entries.len() && complete(#[trigger] entries[i]) {
        let i = choose|i: int| 0 <= i < entries.len() && complete(#[trigger] entries[i]);
        records::picked_is_kept(entries, pick, i);
    }
}

/// The plugin names itself, its version and a way to be reached.
pub proof fn the_plugin_names_itself(config: ConfigValues, version: Text)
    ensures
        settings::configured(config, version).user_agent == "Navidrome-ListenBrainz-Plugin/"@
            + version + " ( ege@celikci.me )"@,
{
}

proof fn incomplete_entries_are_told(entries: Seq<LinkConfigView>)
    ensures
        ({
            let notes = entries.filter_map(|e: LinkConfigView| settings::incomplete(e));
            &&& notes.len() + settings::all_linked(entries).len() == entries.len()
            &&& forall|i: int| 0 <= i < notes.len() ==> (#[trigger] notes[i]) is IncompleteLink
        }),
    decreases entries.len(),
{
    let pick = |e: LinkConfigView| settings::incomplete(e);
    let link = |e: LinkConfigView| settings::linked(e);
    reveal(Seq::filter_map);
    if entries.len() > 0 {
        incomplete_entries_are_told(entries.drop_last());
        let notes = entries.filter_map(pick);
        let before = entries.drop_last().filter_map(pick);
        assert forall|i: int| 0 <= i < notes.len() implies (#[trigger] notes[i])
            is IncompleteLink by {
            if i < before.len() {
                assert(notes[i] == before[i]);
            }
        }
    }
}

/// Every entry of the configuration either makes a link or is told of as incomplete.
pub proof fn every_incomplete_entry_is_told_of(config: ConfigValues)
    requires
        config.user_links is Some,
    ensures
        config.user_links matches Some(entries) ==> {
            let notes = settings::link_notes(config);
            &&& notes.len() + settings::configured_links(config).len() == entries@.len()
            &&& forall|i: int| 0 <= i < notes.len() ==> (#[trigger] notes[i]) is IncompleteLink
            &&& notes.is_prefix_of(settings::configuration_notes(config))
        },
{
    if let Some(entries) = config.user_links {
        incomplete_entries_are_told(settings::link_config_views(entries@));
        let notes = settings::link_notes(config);
        assert(notes =~= settings::configuration_notes(config).take(notes.len() as int));
    }
}

/// A threshold is told of just when it is off the scale and there is a link to sync for.
pub proof fn every_threshold_off_the_scale_is_told_of(config: ConfigValues, entity: CbEntity)
    ensures
        settings::configuration_notes(config).contains(NoteView::ThresholdOffScale { entity }) <==> {
            &&& settings::configured_links(config).len() > 0
            &&& rule_value(config, entity) matches Some(rule) && !(0 <= rule.favorite_at <= 5)
        },
{
    let notes = settings::configuration_notes(config);
    let links = settings::link_notes(config);
    let note = NoteView::ThresholdOffScale { entity };
    if let Some(entries) = config.user_links {
        incomplete_entries_are_told(settings::link_config_views(entries@));
    }
    let a = settings::rule_notes(CbEntity::Artist, config.cb_sync_artists);
    let b = settings::rule_notes(CbEntity::ReleaseGroup, config.cb_sync_albums);
    let c = settings::rule_notes(CbEntity::Recording, config.cb_sync_recordings);
    if notes.contains(note) {
        let i = choose|i: int| 0 <= i < notes.len() && notes[i] == note;
        if i < links.len() {
            assert(links[i] is IncompleteLink);
            assert(notes[i] == links[i]);
        }
    }
    if settings::configured_links(config).len() > 0 && (rule_value(config, entity) matches Some(rule)
        && !(0 <= rule.favorite_at <= 5)) {
        assert(notes == links + a + b + c);
        let at = links.len() + match entity {
            CbEntity::Artist => 0,
            CbEntity::ReleaseGroup => a.len() as int,
            CbEntity::Recording => (a.len() + b.len()) as int,
        };
        assert(notes[at] == note);
    }
}

/// A pass is scheduled as configured, and every half hour where nothing is.
pub proof fn a_pass_is_scheduled_as_configured(value: Option<Text>)
    ensures
        value matches Some(cron) && cron.len() > 0 ==> settings::schedule(value) == value->0,
        !(value matches Some(cron) && cron.len() > 0) ==> settings::schedule(value)
            == "*/30 * * * *"@,
{
}

} // verus!
