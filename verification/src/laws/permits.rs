//! What a pass may ask of the host.

use vstd::prelude::*;
use crate::critique;
use crate::critiquebrainz;
use crate::critiquebrainz::{CbEntity, CbRule};
use crate::http::HttpRequestView;
use crate::listenbrainz;
use crate::mbid;
use crate::pass::PassView;
use crate::protocol::{ActionView, EventView, OutputView, Reply};
use crate::settings::{SettingsView, UserLinkView};
use crate::settled;
use crate::subsonic;
use crate::text::Text;

verus! {

/// A pass after a sequence of answers, with the output of its last step.
pub open spec fn run(settings: SettingsView, authorized: Set<Text>, events: Seq<EventView>) -> (
    PassView,
    OutputView,
)
    decreases events.len(),
{
    if events.len() == 0 {
        PassView::started(settings, authorized)
    } else {
        run(settings, authorized, events.drop_last()).0.step(events.last())
    }
}

/// A link that a pass may work for: one of the settings, of a user that the plugin is assigned to.
pub open spec fn assigned(
    link: UserLinkView,
    settings: SettingsView,
    authorized: Set<Text>,
) -> bool {
    settings.links.contains(link) && authorized.contains(link.nd_username)
}

/// Whether a rule is among the enabled ones.
pub open spec fn enabled(entity: CbEntity, rule: CbRule, settings: SettingsView) -> bool {
    settings.cb_rules.contains((entity, rule))
}

/// A read that a pass may make for a link. With the token of the link: a token check, and pages of
/// loves where the inbound half is on. Without a token, and only where a rule is enabled: the user
/// lookup of the link's CritiqueBrainz account, and pages of ratings of an enabled entity type.
pub open spec fn permitted_read(
    request: HttpRequestView,
    reply: Reply,
    settings: SettingsView,
    link: UserLinkView,
) -> bool {
    match reply {
        Reply::Token => request == listenbrainz::token_check(link.token, settings),
        Reply::Feedback => settings.sync_inbound && exists|lb_username: Text, offset: int|
            request == #[trigger] listenbrainz::feedback_read(
                link.token,
                lb_username,
                offset,
                settings,
            ),
        Reply::CbUser => settings.cb_rules.len() > 0 && exists|lb_username: Option<Text>|
            (#[trigger] critique::account_name(link, lb_username)) matches Some(username)
                && request == critiquebrainz::user_read(username, settings),
        Reply::Reviews => exists|entity: CbEntity, rule: CbRule, user_id: Text, offset: int|
            #[trigger] enabled(entity, rule, settings) && request
                == #[trigger] critiquebrainz::reviews_read(user_id, entity, offset, settings),
    }
}

/// A change that a pass may make to a user's library: to star songs, where the inbound half is on;
/// to set a rating of one to five stars, where a rule asks for ratings; and to favourite an item of
/// an entity type whose rule asks for it.
pub open spec fn permitted_update(uri: Text, settings: SettingsView, nd_username: Text) -> bool {
    ||| settings.sync_inbound && exists|ids: Seq<Text>|
        ids.len() > 0 && uri == #[trigger] subsonic::star_songs_call(nd_username, ids)
    ||| exists|entity: CbEntity, rule: CbRule, id: Text, rating: int|
        #[trigger] enabled(entity, rule, settings) && rule.sync_rating && critiquebrainz::on_scale(
            rating,
        ) && uri == #[trigger] subsonic::rating_call(nd_username, id, rating)
    ||| exists|entity: CbEntity, rule: CbRule, id: Text|
        #[trigger] enabled(entity, rule, settings) && rule.favorite_at > 0 && uri
            == #[trigger] subsonic::star_call(nd_username, entity, id)
}

/// An action that a pass may ask for on behalf of a link. A dry run changes nothing.
pub open spec fn permitted_action(
    action: ActionView,
    settings: SettingsView,
    link: UserLinkView,
) -> bool {
    match action {
        ActionView::Fetch { request, reply } => permitted_read(request, reply, settings, link),
        ActionView::Love { request } => {
            &&& !settings.dry_run
            &&& settings.sync_outbound
            &&& exists|mbid: Text|
                mbid::mbid_shaped(mbid) && request == #[trigger] listenbrainz::love_write(
                    link.token,
                    mbid,
                    settings,
                )
        },
        ActionView::ListKeys { prefix } => {
            ||| prefix == settled::synced_prefix(link.nd_username)
            ||| settings.cb_rules.len() > 0 && prefix == settled::cbsynced_prefix(link.nd_username)
        },
        ActionView::MatchSongs { username, mbids } => {
            &&& settings.sync_inbound
            &&& username == link.nd_username
            &&& 0 < mbids.len() <= settings.batch_size
            &&& forall|i: int| 0 <= i < mbids.len() ==> mbid::mbid_shaped(#[trigger] mbids[i])
        },
        ActionView::Query { uri } => {
            ||| settings.sync_outbound && uri == subsonic::starred_call(link.nd_username)
            ||| settings.cb_rules.len() > 0 && exists|mbid: Text|
                mbid::mbid_shaped(mbid) && uri == #[trigger] subsonic::lookup_call(
                    link.nd_username,
                    mbid,
                )
        },
        ActionView::Update { uri } => !settings.dry_run && permitted_update(
            uri,
            settings,
            link.nd_username,
        ),
    }
}

/// A key that a pass may record for a user: that of a well-formed recording, or of a state that an
/// enabled rule asks for.
pub open spec fn permitted_key(key: Text, settings: SettingsView, nd_username: Text) -> bool {
    ||| exists|mbid: Text|
        #[trigger] mbid::mbid_shaped(mbid) && key == settled::synced_prefix(nd_username) + mbid
    ||| exists|entity: CbEntity, rule: CbRule, mbid: Text, rating: int|
        #[trigger] enabled(entity, rule, settings) && mbid::mbid_shaped(mbid)
            && critiquebrainz::on_scale(rating) && key == settled::cbsynced_prefix(nd_username)
            + #[trigger] critiquebrainz::state_key(entity, mbid, rating, rule)
}

/// Keys that a pass may record on behalf of a link. A dry run records none.
pub open spec fn permitted_keys(
    keys: Seq<Text>,
    settings: SettingsView,
    link: UserLinkView,
) -> bool {
    &&& settings.dry_run ==> keys.len() == 0
    &&& forall|i: int|
        0 <= i < keys.len() ==> permitted_key(#[trigger] keys[i], settings, link.nd_username)
}

/// An output that a pass may give on behalf of a link.
pub open spec fn permitted(output: OutputView, settings: SettingsView, link: UserLinkView) -> bool {
    &&& permitted_keys(output.persist, settings, link)
    &&& output.action matches Some(action) ==> permitted_action(action, settings, link)
}

} // verus!
