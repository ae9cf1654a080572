//! The settings of a pass, and how they follow from the configuration.

use vstd::prelude::*;
use crate::critiquebrainz::{CbEntity, CbRule};
use crate::protocol;
use crate::protocol::{Note, NoteView};
use crate::text;
use crate::text::Text;

verus! {

/// Payload identifying the sync job in scheduler callbacks.
pub const SYNC_JOB: &'static str = "like-sync";

/// The schedule of a pass where none is configured.
pub const DEFAULT_SCHEDULE: &'static str = "*/30 * * * *";

/// ListenBrainz allows at most one request per second per client application.
pub const MIN_REQUEST_DELAY_MS: i64 = 1000;

/// The longest gap between two requests that can be configured.
pub const MAX_REQUEST_DELAY_MS: i64 = 60000;

/// The largest matcher batch that can be configured.
pub const MAX_BATCH_SIZE: i64 = 1000;

/// A Navidrome user linked to a ListenBrainz account by token, and optionally to a CritiqueBrainz
/// username that differs from the ListenBrainz one.
#[derive(Debug, PartialEq, Eq)]
pub struct UserLink {
    pub nd_username: String,
    pub token: String,
    pub cb_username: Option<String>,
}

/// What a user link says.
pub struct UserLinkView {
    pub nd_username: Text,
    pub token: Text,
    pub cb_username: Option<Text>,
}

/// The text that an optional string holds.
pub open spec fn opt_text(s: Option<String>) -> Option<Text> {
    match s {
        Some(s) => Some(s@),
        None => None,
    }
}

impl View for UserLink {
    type V = UserLinkView;

    open spec fn view(&self) -> UserLinkView {
        UserLinkView {
            nd_username: self.nd_username@,
            token: self.token@,
            cb_username: opt_text(self.cb_username),
        }
    }
}

/// One entry of the `user_links` config array.
#[derive(Debug, PartialEq, Eq)]
pub struct LinkConfig {
    pub navidrome_username: String,
    pub listenbrainz_token: String,
    pub critiquebrainz_username: String,
}

/// What an entry of the `user_links` config array says.
pub struct LinkConfigView {
    pub navidrome_username: Text,
    pub listenbrainz_token: Text,
    pub critiquebrainz_username: Text,
}

impl View for LinkConfig {
    type V = LinkConfigView;

    open spec fn view(&self) -> LinkConfigView {
        LinkConfigView {
            navidrome_username: self.navidrome_username@,
            listenbrainz_token: self.listenbrainz_token@,
            critiquebrainz_username: self.critiquebrainz_username@,
        }
    }
}

/// The configuration as the host hands it over. A value that is absent, or that does not decode,
/// is `None`.
#[derive(Debug, PartialEq, Eq)]
pub struct ConfigValues {
    pub user_links: Option<Vec<LinkConfig>>,
    pub sync_inbound: Option<String>,
    pub sync_outbound: Option<String>,
    pub dry_run: Option<String>,
    pub batch_size: Option<i64>,
    pub request_delay_ms: Option<i64>,
    pub max_per_run: Option<i64>,
    pub cb_sync_artists: Option<CbRule>,
    pub cb_sync_albums: Option<CbRule>,
    pub cb_sync_recordings: Option<CbRule>,
}

/// Global settings shared by every linked user.
#[derive(Debug, PartialEq, Eq)]
pub struct Settings {
    pub links: Vec<UserLink>,
    pub sync_inbound: bool,
    pub sync_outbound: bool,
    pub dry_run: bool,
    pub batch_size: usize,
    pub request_delay_ms: u64,
    pub max_per_run: i64,
    /// Enabled CritiqueBrainz entity rules, one per entity type the administrator opted into.
    pub cb_rules: Vec<(CbEntity, CbRule)>,
    /// How the plugin names itself to ListenBrainz and CritiqueBrainz.
    pub user_agent: String,
}

/// What the settings say.
pub struct SettingsView {
    pub links: Seq<UserLinkView>,
    pub sync_inbound: bool,
    pub sync_outbound: bool,
    pub dry_run: bool,
    pub batch_size: int,
    pub request_delay_ms: int,
    pub max_per_run: int,
    pub cb_rules: Seq<(CbEntity, CbRule)>,
    pub user_agent: Text,
}

/// What a sequence of user links says.
pub open spec fn link_views(links: Seq<UserLink>) -> Seq<UserLinkView> {
    links.map_values(|l: UserLink| l@)
}

impl View for Settings {
    type V = SettingsView;

    open spec fn view(&self) -> SettingsView {
        SettingsView {
            links: link_views(self.links@),
            sync_inbound: self.sync_inbound,
            sync_outbound: self.sync_outbound,
            dry_run: self.dry_run,
            batch_size: self.batch_size as int,
            request_delay_ms: self.request_delay_ms as int,
            max_per_run: self.max_per_run as int,
            cb_rules: self.cb_rules@,
            user_agent: self.user_agent@,
        }
    }
}

impl SettingsView {
    /// The bounds that every number of the settings is brought into.
    pub open spec fn in_bounds(self) -> bool {
        &&& 1 <= self.batch_size <= MAX_BATCH_SIZE
        &&& MIN_REQUEST_DELAY_MS <= self.request_delay_ms <= MAX_REQUEST_DELAY_MS
        &&& 1 <= self.max_per_run
        &&& forall|i: int|
            0 <= i < self.cb_rules.len() ==> 0 <= (#[trigger] self.cb_rules[i]).1.favorite_at <= 5
    }
}

/// A flag of the configuration: `true` in any case switches it on, any other value off.
pub open spec fn flag(value: Option<Text>, default: bool) -> bool {
    match value {
        Some(value) => text::ascii_lower(value) == text::ascii_lower("true"@),
        None => default,
    }
}

/// Reads a flag of the configuration.
pub fn read_bool(value: &Option<String>, default: bool) -> (r: bool)
    ensures
        r == flag(opt_text(*value), default),
{
    match value {
        Some(value) => value.as_str().eq_ignore_ascii_case("true"),
        None => default,
    }
}

/// A number of the configuration, or its default.
pub open spec fn number(value: Option<i64>, default: int) -> int {
    match value {
        Some(value) => value as int,
        None => default,
    }
}

/// Reads a number of the configuration.
pub fn read_int(value: Option<i64>, default: i64) -> (r: i64)
    ensures
        r == number(value, default as int),
{
    match value {
        Some(value) => value,
        None => default,
    }
}

/// The number of the range nearest to `n`.
pub open spec fn clamped(n: int, low: int, high: int) -> int {
    if n < low {
        low
    } else if n > high {
        high
    } else {
        n
    }
}

fn clamp(n: i64, low: i64, high: i64) -> (r: i64)
    ensures
        r == clamped(n as int, low as int, high as int),
{
    if n < low {
        low
    } else if n > high {
        high
    } else {
        n
    }
}

/// A rule with its threshold on the scale; one that is off it leaves favouriting off.
pub open spec fn rule_on_scale(rule: CbRule) -> CbRule {
    if 0 <= rule.favorite_at <= 5 {
        rule
    } else {
        CbRule { favorite_at: 0, ..rule }
    }
}

/// The rule of one entity type, where it is configured and asks for an action.
pub open spec fn enabled_rule(entity: CbEntity, rule: Option<CbRule>) -> Seq<(CbEntity, CbRule)> {
    match rule {
        Some(rule) if rule_on_scale(rule).sync_rating || rule_on_scale(rule).favorite_at != 0 => {
            seq![(entity, rule_on_scale(rule))]
        },
        _ => Seq::empty(),
    }
}

/// The rules of all entity types: artists, albums, recordings.
pub open spec fn enabled_rules(
    artists: Option<CbRule>,
    albums: Option<CbRule>,
    recordings: Option<CbRule>,
) -> Seq<(CbEntity, CbRule)> {
    enabled_rule(CbEntity::Artist, artists) + enabled_rule(CbEntity::ReleaseGroup, albums)
        + enabled_rule(CbEntity::Recording, recordings)
}

fn push_rule(rules: &mut Vec<(CbEntity, CbRule)>, entity: CbEntity, rule: Option<CbRule>)
    ensures
        final(rules)@ == old(rules)@ + enabled_rule(entity, rule),
{
    match rule {
        Some(rule) => {
            let mut rule = rule;
            if !(0 <= rule.favorite_at && rule.favorite_at <= 5) {
                rule = CbRule { sync_rating: rule.sync_rating, favorite_at: 0 };
            }
            if !rule.is_disabled() {
                rules.push((entity, rule));
            }
        },
        None => {},
    }
    assert(rules@ =~= old(rules)@ + enabled_rule(entity, rule));
}

/// Reads the per-entity CritiqueBrainz rules. Disabled rules are dropped, so a pass touches
/// CritiqueBrainz only once opted in.
pub fn read_cb_rules(
    artists: Option<CbRule>,
    albums: Option<CbRule>,
    recordings: Option<CbRule>,
) -> (r: Vec<(CbEntity, CbRule)>)
    ensures
        r@ == enabled_rules(artists, albums, recordings),
{
    let mut rules: Vec<(CbEntity, CbRule)> = Vec::new();
    push_rule(&mut rules, CbEntity::Artist, artists);
    assert(rules@ =~= enabled_rule(CbEntity::Artist, artists));
    push_rule(&mut rules, CbEntity::ReleaseGroup, albums);
    push_rule(&mut rules, CbEntity::Recording, recordings);
    rules
}

/// The link that an entry of the configuration makes: its values without the white space around
/// them. An entry without a Navidrome username or without a token makes none, and an empty
/// CritiqueBrainz username counts as absent.
pub open spec fn linked(entry: LinkConfigView) -> Option<UserLinkView> {
    let nd_username = text::trim(entry.navidrome_username);
    let token = text::trim(entry.listenbrainz_token);
    let cb_username = text::trim(entry.critiquebrainz_username);
    if nd_username.len() == 0 || token.len() == 0 {
        None
    } else {
        Some(
            UserLinkView {
                nd_username,
                token,
                cb_username: if cb_username.len() == 0 {
                    None
                } else {
                    Some(cb_username)
                },
            },
        )
    }
}

/// The link that an optional user link says.
pub open spec fn opt_link_view(link: Option<UserLink>) -> Option<UserLinkView> {
    match link {
        Some(link) => Some(link@),
        None => None,
    }
}

/// Makes the link of one entry, or none where the entry is incomplete.
pub fn user_link(entry: &LinkConfig) -> (r: Option<UserLink>)
    ensures
        opt_link_view(r) == linked(entry@),
{
    let nd_username = entry.navidrome_username.as_str().trim();
    let token = entry.listenbrainz_token.as_str().trim();
    let cb_username = entry.critiquebrainz_username.as_str().trim();
    if nd_username.is_empty() || token.is_empty() {
        return None;
    }
    Some(
        UserLink {
            nd_username: nd_username.to_owned(),
            token: token.to_owned(),
            cb_username: if cb_username.is_empty() {
                None
            } else {
                Some(cb_username.to_owned())
            },
        },
    )
}

/// What the entries of the configuration say.
pub open spec fn link_config_views(entries: Seq<LinkConfig>) -> Seq<LinkConfigView> {
    entries.map_values(|e: LinkConfig| e@)
}

/// The links of all complete entries, in order.
pub open spec fn all_linked(entries: Seq<LinkConfigView>) -> Seq<UserLinkView> {
    entries.filter_map(|e: LinkConfigView| linked(e))
}

fn user_links(entries: &Vec<LinkConfig>) -> (r: Vec<UserLink>)
    ensures
        link_views(r@) == all_linked(link_config_views(entries@)),
{
    let mut links: Vec<UserLink> = Vec::new();
    let ghost all = link_config_views(entries@);
    let ghost link = |e: LinkConfigView| linked(e);
    let mut i: usize = 0;
    assert(all.take(0).filter_map(link) =~= Seq::<UserLinkView>::empty());
    assert(link_views(links@) =~= all.take(0).filter_map(link));
    while i < entries.len()
        invariant
            i <= entries@.len(),
            all == link_config_views(entries@),
            link == |e: LinkConfigView| linked(e),
            link_views(links@) == all.take(i as int).filter_map(link),
        decreases entries@.len() - i,
    {
        let ghost before = links@;
        proof {
            all.lemma_filter_map_take_succ(link, i as int);
        }
        assert(all[i as int] == entries@[i as int]@);
        if let Some(made) = user_link(&entries[i]) {
            links.push(made);
            assert(link_views(links@) =~= link_views(before).push(made@));
        }
        assert(link_views(links@) =~= all.take(i + 1).filter_map(link));
        i += 1;
    }
    assert(all.take(i as int) =~= all);
    links
}

/// How the plugin of a version names itself. ListenBrainz requires a contactable user agent.
pub open spec fn agent(version: Text) -> Text {
    "Navidrome-ListenBrainz-Plugin/"@ + version + " ( ege@celikci.me )"@
}

/// The user agent of a version of the plugin.
pub fn user_agent(version: &str) -> (r: String)
    ensures
        r@ == agent(version@),
{
    "Navidrome-ListenBrainz-Plugin/".to_owned().concat(version).concat(" ( ege@celikci.me )")
}

/// The links that the configuration asks for.
pub open spec fn configured_links(config: ConfigValues) -> Seq<UserLinkView> {
    match config.user_links {
        Some(entries) => all_linked(link_config_views(entries@)),
        None => Seq::empty(),
    }
}

/// The settings that the configuration asks for. Numbers are brought into their bounds.
pub open spec fn configured(config: ConfigValues, version: Text) -> SettingsView {
    SettingsView {
        links: configured_links(config),
        sync_inbound: flag(opt_text(config.sync_inbound), true),
        sync_outbound: flag(opt_text(config.sync_outbound), true),
        dry_run: flag(opt_text(config.dry_run), true),
        batch_size: clamped(number(config.batch_size, 100), 1, MAX_BATCH_SIZE as int),
        request_delay_ms: clamped(
            number(config.request_delay_ms, MIN_REQUEST_DELAY_MS as int),
            MIN_REQUEST_DELAY_MS as int,
            MAX_REQUEST_DELAY_MS as int,
        ),
        max_per_run: if number(config.max_per_run, 500) < 1 {
            1
        } else {
            number(config.max_per_run, 500)
        },
        cb_rules: enabled_rules(
            config.cb_sync_artists,
            config.cb_sync_albums,
            config.cb_sync_recordings,
        ),
        user_agent: agent(version),
    }
}

/// Reads the configuration and returns `None` when no usable user link is set.
pub fn load_settings(config: &ConfigValues, version: &str) -> (r: Option<Settings>)
    ensures
        r is Some <==> configured_links(*config).len() > 0,
        r matches Some(settings) ==> settings@ == configured(*config, version@)
            && settings@.in_bounds(),
{
    let links = match &config.user_links {
        Some(entries) => user_links(entries),
        None => Vec::new(),
    };
    assert(link_views(links@) =~= configured_links(*config));
    if links.len() == 0 {
        return None;
    }
    let batch_size = clamp(read_int(config.batch_size, 100), 1, MAX_BATCH_SIZE);
    let request_delay_ms = clamp(
        read_int(config.request_delay_ms, MIN_REQUEST_DELAY_MS),
        MIN_REQUEST_DELAY_MS,
        MAX_REQUEST_DELAY_MS,
    );
    let max_per_run = read_int(config.max_per_run, 500);
    let settings = Settings {
        links,
        sync_inbound: read_bool(&config.sync_inbound, true),
        sync_outbound: read_bool(&config.sync_outbound, true),
        dry_run: read_bool(&config.dry_run, true),
        batch_size: batch_size as usize,
        request_delay_ms: request_delay_ms as u64,
        max_per_run: if max_per_run < 1 {
            1
        } else {
            max_per_run
        },
        cb_rules: read_cb_rules(
            config.cb_sync_artists,
            config.cb_sync_albums,
            config.cb_sync_recordings,
        ),
        user_agent: user_agent(version),
    };
    Some(settings)
}

/// What is said of an entry of the configuration that makes no link.
pub open spec fn incomplete(entry: LinkConfigView) -> Option<NoteView> {
    match linked(entry) {
        Some(_) => None,
        None => Some(NoteView::IncompleteLink),
    }
}

/// What is said of the user links of the configuration.
pub open spec fn link_notes(config: ConfigValues) -> Seq<NoteView> {
    match config.user_links {
        Some(entries) => link_config_views(entries@).filter_map(
            |e: LinkConfigView| incomplete(e),
        ),
        None => Seq::empty(),
    }
}

/// What is said of the rule of one entity type.
pub open spec fn rule_notes(entity: CbEntity, rule: Option<CbRule>) -> Seq<NoteView> {
    match rule {
        Some(rule) if !(0 <= rule.favorite_at <= 5) => seq![NoteView::ThresholdOffScale { entity }],
        _ => Seq::empty(),
    }
}

/// What is said of the configuration. Without a usable link the rules are nothing to speak of.
pub open spec fn configuration_notes(config: ConfigValues) -> Seq<NoteView> {
    if configured_links(config).len() > 0 {
        link_notes(config) + rule_notes(CbEntity::Artist, config.cb_sync_artists) + rule_notes(
            CbEntity::ReleaseGroup,
            config.cb_sync_albums,
        ) + rule_notes(CbEntity::Recording, config.cb_sync_recordings)
    } else {
        link_notes(config)
    }
}

fn note_rule(notes: &mut Vec<Note>, entity: CbEntity, rule: Option<CbRule>)
    ensures
        protocol::note_views(final(notes)@) == protocol::note_views(old(notes)@) + rule_notes(
            entity,
            rule,
        ),
{
    if let Some(rule) = rule {
        if !(0 <= rule.favorite_at && rule.favorite_at <= 5) {
            notes.push(Note::ThresholdOffScale { entity });
        }
    }
    assert(protocol::note_views(notes@) =~= protocol::note_views(old(notes)@) + rule_notes(
        entity,
        rule,
    ));
}

fn note_links(entries: &Vec<LinkConfig>) -> (r: Vec<Note>)
    ensures
        protocol::note_views(r@) == link_config_views(entries@).filter_map(
            |e: LinkConfigView| incomplete(e),
        ),
{
    let mut notes: Vec<Note> = Vec::new();
    let ghost all = link_config_views(entries@);
    let ghost pick = |e: LinkConfigView| incomplete(e);
    let mut i: usize = 0;
    assert(all.take(0).filter_map(pick) =~= Seq::<NoteView>::empty());
    assert(protocol::note_views(notes@) =~= Seq::<NoteView>::empty());
    while i < entries.len()
        invariant
            i <= entries@.len(),
            all == link_config_views(entries@),
            pick == |e: LinkConfigView| incomplete(e),
            protocol::note_views(notes@) == all.take(i as int).filter_map(pick),
        decreases entries@.len() - i,
    {
        let ghost before = notes@;
        proof {
            all.lemma_filter_map_take_succ(pick, i as int);
        }
        assert(all[i as int] == entries@[i as int]@);
        if user_link(&entries[i]).is_none() {
            notes.push(Note::IncompleteLink);
            assert(protocol::note_views(notes@) =~= protocol::note_views(before).push(
                NoteView::IncompleteLink,
            ));
        }
        assert(protocol::note_views(notes@) =~= all.take(i + 1).filter_map(pick));
        i += 1;
    }
    assert(all.take(i as int) =~= all);
    notes
}

/// Tells what is wrong with the configuration: the user links that are skipped, and the thresholds
/// that are off the scale.
pub fn config_notes(config: &ConfigValues) -> (r: Vec<Note>)
    ensures
        protocol::note_views(r@) == configuration_notes(*config),
{
    let mut notes: Vec<Note> = Vec::new();
    let mut usable = false;
    if let Some(entries) = &config.user_links {
        notes = note_links(entries);
        let links = user_links(entries);
        usable = links.len() > 0;
        assert(link_views(links@).len() == links@.len());
    }
    assert(protocol::note_views(notes@) =~= link_notes(*config));
    if !usable {
        return notes;
    }
    note_rule(&mut notes, CbEntity::Artist, config.cb_sync_artists);
    note_rule(&mut notes, CbEntity::ReleaseGroup, config.cb_sync_albums);
    note_rule(&mut notes, CbEntity::Recording, config.cb_sync_recordings);
    notes
}

/// The schedule of a pass: the configured one, or the default where none is set.
pub open spec fn schedule(value: Option<Text>) -> Text {
    match value {
        Some(value) if value.len() > 0 => value,
        _ => DEFAULT_SCHEDULE@,
    }
}

/// Reads the schedule of a pass.
pub fn read_schedule(value: &Option<String>) -> (r: String)
    ensures
        r@ == schedule(opt_text(*value)),
{
    match value {
        Some(value) => if value.as_str().is_empty() {
            DEFAULT_SCHEDULE.to_owned()
        } else {
            value.clone()
        },
        None => DEFAULT_SCHEDULE.to_owned(),
    }
}

/// Whether a scheduler callback is about the sync job.
pub fn is_sync_job(payload: &str) -> (r: bool)
    ensures
        r == (payload@ == "like-sync"@),
{
    text::same_text(payload, SYNC_JOB)
}

} // verus!
