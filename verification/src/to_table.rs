//! From snapshots to tables: the title block and one text block per team, for each of the
//! snapshot shapes.

use crate::clock::{format_instant, instant_text};
use crate::merge::given;
use crate::structs::player_list::PlayerList;
use crate::structs::seeder_player_list::SeederPlayerList;
use crate::table::{format_columns, render_table, rendered, rows_of};
use crate::text::texts_of;
use vstd::prelude::*;

pub mod bf4_player_list;
pub mod player_list;
pub mod seeder_player_list;

verus! {

/// The row format of a table with three columns, left-aligned, two spaces apart.
pub open spec fn three_columns() -> Seq<char> {
    "{:<}  {:<}  {:<}"@
}

/// The row format of a table with four columns, left-aligned, two spaces apart.
pub open spec fn four_columns() -> Seq<char> {
    "{:<}  {:<}  {:<}  {:<}"@
}

/// The row format of a table with eight columns, left-aligned, two spaces apart.
pub open spec fn eight_columns() -> Seq<char> {
    "{:<}  {:<}  {:<}  {:<}  {:<}  {:<}  {:<}  {:<}"@
}

/// The three row formats are row formats, of three, four and eight columns.
pub proof fn lemma_row_formats()
    ensures
        format_columns(three_columns()) == Some(3nat),
        format_columns(four_columns()) == Some(4nat),
        format_columns(eight_columns()) == Some(8nat),
{
    reveal_strlit("{:<}  {:<}  {:<}");
    reveal_strlit("{:<}  {:<}  {:<}  {:<}");
    reveal_strlit("{:<}  {:<}  {:<}  {:<}  {:<}  {:<}  {:<}  {:<}");
    assert(format_columns(three_columns()) == Some(3nat)) by {
        reveal_with_fuel(format_columns, 9);
    }
    assert(format_columns(four_columns()) == Some(4nat)) by {
        reveal_with_fuel(format_columns, 12);
    }
    assert(format_columns(eight_columns()) == Some(8nat)) by {
        reveal_with_fuel(format_columns, 24);
    }
}

/// A player's name as shown: behind the tag in square brackets, if there is a tag.
pub open spec fn shown_name(tag: Seq<char>, name: Seq<char>) -> Seq<char> {
    if tag.len() == 0 {
        name
    } else {
        "["@ + tag + "]"@ + name
    }
}

/// Writes a player's name behind the tag in square brackets, or alone if there is no tag.
pub fn show_name(tag: &str, name: &str) -> (shown: String)
    ensures
        shown@ == shown_name(tag@, name@),
{
    if tag.unicode_len() == 0 {
        String::from_str(name)
    } else {
        let mut shown = String::from_str("[");
        shown.append(tag);
        shown.append("]");
        shown.append(name);
        shown
    }
}

/// Two texts, one after the other.
pub fn concat(left: &str, right: &str) -> (text: String)
    ensures
        text@ == left@ + right@,
{
    let mut text = String::from_str(left);
    text.append(right);
    text
}

/// The labels above the three instants of the title block.
pub open spec fn title_labels() -> Seq<Seq<char>> {
    seq!["Last bot update"@, "Gametools update"@, "Gather update"@]
}

/// The instant of the enriched snapshot as the title shows it, or the note that there is none.
pub open spec fn enriched_instant(seeder: Option<SeederPlayerList>) -> Seq<char> {
    match seeder {
        Some(list) => instant_text(list.update_timestamp as int),
        None => "Not running"@,
    }
}

/// The rows of the title block: the labels, then the instant of rendering, the instant of the
/// primary snapshot and the instant of the enriched one.
pub open spec fn title_rows(result: PlayerList, seeder: Option<SeederPlayerList>, now: int) -> Seq<
    Seq<Seq<char>>,
> {
    seq![
        title_labels(),
        seq![
            instant_text(now),
            instant_text(result.update_timestamp as int),
            enriched_instant(seeder),
        ],
    ]
}

/// The title block: the server's name as heading, and the three instants below their labels.
pub open spec fn title_text(result: PlayerList, seeder: Option<SeederPlayerList>, now: int) -> Seq<
    char,
> {
    rendered(
        three_columns(),
        result.serverinfo.name@ + " playerlist"@,
        title_rows(result, seeder, now),
    )
}

/// Renders the title block for a rendering at the instant `now`.
pub fn title_table(
    result: &PlayerList,
    seeder_player_list: Option<&SeederPlayerList>,
    now: i64,
) -> (title: String)
    ensures
        title@ == title_text(*result, given(seeder_player_list), now as int),
{
    let seeder_time = match seeder_player_list {
        Some(list) => format_instant(list.update_timestamp),
        None => String::from_str("Not running"),
    };
    let labels = vec![
        String::from_str("Last bot update"),
        String::from_str("Gametools update"),
        String::from_str("Gather update"),
    ];
    let instants = vec![format_instant(now), format_instant(result.update_timestamp), seeder_time];
    let rows = vec![labels, instants];
    let heading = concat(result.serverinfo.name.as_str(), " playerlist");
    proof {
        lemma_row_formats();
        let seeder = given(seeder_player_list);
        assert(texts_of(labels@) =~= title_labels());
        assert(texts_of(instants@) =~= title_rows(*result, seeder, now as int)[1]);
        assert(rows_of(rows@) =~= title_rows(*result, seeder, now as int));
    }
    render_table("{:<}  {:<}  {:<}", heading.as_str(), &rows)
}

} // verus!
