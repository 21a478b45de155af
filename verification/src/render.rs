//! The table renderer: turns a merged view into a title block and one text block per team.
//!
//! Which columns a team table has depends on what drove the merge. The title block shows the
//! instant of rendering, the instant of the primary snapshot, and the instant of the enriched
//! snapshot or the note that there is none.

use crate::clock::current_timestamp;
use crate::merge::{link_values, links_of, MergedView};
use crate::structs::player_list::PlayerList;
use crate::structs::seeder_player_list::SeederPlayerList;
use crate::text::texts_of;
use crate::to_table::{player_list, seeder_player_list, title_table, title_text};
use vstd::prelude::*;

verus! {

/// What one cycle renders: the title block and the team bodies, in team order.
#[derive(Debug, PartialEq, Eq)]
pub struct RenderedContent {
    pub title: String,
    pub teams: Vec<String>,
}

/// The title block of a view rendered at the instant `now`.
pub open spec fn view_title(view: MergedView<'_>, now: int) -> Seq<char> {
    match view {
        MergedView::PrimaryOnly { primary } => title_text(*primary, None, now),
        MergedView::Enriched { primary, enriched, .. } => title_text(
            *primary,
            Some(*enriched),
            now,
        ),
    }
}

/// The team bodies of a view rendered at the instant `now`: the teams of the snapshot that
/// drives the rendering, in the order received.
pub open spec fn view_teams(view: MergedView<'_>, now: int) -> Seq<Seq<char>> {
    match view {
        MergedView::PrimaryOnly { primary } => player_list::team_texts(primary.teams@, now),
        MergedView::Enriched { enriched, links, .. } => seeder_player_list::team_texts(
            enriched.teams@,
            link_values(links@),
            now,
        ),
    }
}

/// The team bodies that come of joining `primary` with `enriched` and rendering at `now`: the
/// tables of the primary snapshot alone, or those of the enriched snapshot with its links.
pub open spec fn joined_teams(
    primary: PlayerList,
    enriched: Option<SeederPlayerList>,
    now: int,
) -> Seq<Seq<char>> {
    match enriched {
        None => player_list::team_texts(primary.teams@, now),
        Some(list) => seeder_player_list::team_texts(list.teams@, links_of(primary, list), now),
    }
}

/// Renders a view at the instant `now`.
pub fn render_at(view: &MergedView<'_>, now: i64) -> (content: RenderedContent)
    ensures
        content.title@ == view_title(*view, now as int),
        texts_of(content.teams@) == view_teams(*view, now as int),
{
    match view {
        MergedView::PrimaryOnly { primary } => {
            let (title, teams) = player_list::to_tables_at(primary, now);
            RenderedContent { title, teams }
        },
        MergedView::Enriched { primary, enriched, links } => {
            let teams = seeder_player_list::team_tables(enriched, links, now);
            let title = title_table(primary, Some(enriched), now);
            RenderedContent { title, teams }
        },
    }
}

/// Renders a view as of now.
///
/// The instant of rendering is read from the clock, so the content is that of [`render_at`]
/// for some instant.
pub fn render(view: &MergedView<'_>) -> (content: RenderedContent)
    ensures
        exists|now: i64|
            content.title@ == view_title(*view, now as int) && texts_of(content.teams@)
                == #[trigger] view_teams(*view, now as int),
{
    let now = current_timestamp();
    render_at(view, now)
}

/// What a join renders to depends on the two snapshots alone.
pub proof fn lemma_join_rendering(
    view: MergedView<'_>,
    primary: PlayerList,
    enriched: Option<SeederPlayerList>,
    now: int,
)
    requires
        view.joins(primary, enriched),
    ensures
        view_title(view, now) == title_text(primary, enriched, now),
        view_teams(view, now) == joined_teams(primary, enriched, now),
        view_teams(view, now).len() == (match enriched {
            Some(list) => list.teams@.len(),
            None => primary.teams@.len(),
        }),
{
}

/// Joining without an enriched snapshot changes nothing: the view renders to exactly the
/// title block and team tables of the primary snapshot alone.
pub proof fn lemma_primary_only_rendering(view: MergedView<'_>, primary: PlayerList, now: int)
    requires
        view.joins(primary, None),
    ensures
        view_title(view, now) == title_text(primary, None, now),
        view_teams(view, now) == player_list::team_texts(primary.teams@, now),
{
}

/// Joining with an enriched snapshot renders the teams of the enriched snapshot, each player
/// with the ping and time on the server of the primary player of the same identity.
pub proof fn lemma_enriched_rendering(
    view: MergedView<'_>,
    primary: PlayerList,
    enriched: SeederPlayerList,
    now: int,
)
    requires
        view.joins(primary, Some(enriched)),
    ensures
        view_title(view, now) == title_text(primary, Some(enriched), now),
        view_teams(view, now) == seeder_player_list::team_texts(
            enriched.teams@,
            links_of(primary, enriched),
            now,
        ),
{
}

} // verus!
