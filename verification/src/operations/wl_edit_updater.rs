use vstd::prelude::*;

use crate::operations::message::{
    first_description_contains, first_title_contains, opt_text, text_contains, text_is, EmbedInfo,
};
use crate::operations::wishlist_updaters::{
    collection_scan, collection_updates, listing_scan, listing_updates, updates_view, LineKind, Scan,
    UpdateView, WishlistUpdate, read_lines, read_line, between, count_between,
};
use crate::text::{contains, occurs_at, split};
use crate::utils::cards_handler::CharacterView;

verus! {

/// An edited message whose first embed lists wishlist counts.
pub open spec fn is_wishlist_edit(embeds: Option<Seq<EmbedInfo>>) -> bool {
    match embeds {
        Some(e) => e.len() > 0 && (first_title_contains(e, "(Sort By: Wishlist)"@) || opt_text(
            e[0].title,
        ) == Some("WISHLIST LEADERBOARD - CHARACTERS"@) || opt_text(e[0].title) == Some(
            "WISHLIST LEADERBOARD - SERIES"@,
        ) || first_description_contains(e, "Cards Collected:"@)),
        None => false,
    }
}

/// Whether an edited message, with the embeds `embeds` if the edit carries them, lists
/// wishlist counts.
pub fn filter(embeds: &Option<Vec<EmbedInfo>>) -> (r: bool)
    ensures
        r == is_wishlist_edit(
            match embeds {
                Some(e) => Some(e@),
                None => None,
            },
        ),
{
    match embeds {
        Some(e) => e.len() > 0 && (text_contains(&e[0].title, "(Sort By: Wishlist)") || text_is(
            &e[0].title,
            "WISHLIST LEADERBOARD - CHARACTERS",
        ) || text_is(&e[0].title, "WISHLIST LEADERBOARD - SERIES") || text_contains(
            &e[0].description,
            "Cards Collected:",
        )),
        None => false,
    }
}


/// The wishlist counts that an edited message carries (its first embed must exist).
pub open spec fn edit_updates(embeds: Seq<EmbedInfo>) -> (Seq<UpdateView>, bool) {
    if embeds.len() == 0 {
        (Seq::empty(), false)
    } else if first_title_contains(embeds, "(Sort By: Wishlist)"@) {
        listing_updates(LineKind::SortedByWishlist, embeds[0])
    } else if opt_text(embeds[0].title) == Some("WISHLIST LEADERBOARD - CHARACTERS"@) {
        listing_updates(LineKind::LeaderboardCharacters, embeds[0])
    } else if opt_text(embeds[0].title) == Some("WISHLIST LEADERBOARD - SERIES"@) {
        listing_updates(LineKind::LeaderboardSeries, embeds[0])
    } else if first_description_contains(embeds, "Cards Collected:"@) {
        collection_updates(embeds[0])
    } else {
        (Seq::empty(), true)
    }
}

/// The wishlist counts that an edited message carries, in the order in which they are sent
/// (see [`edit_updates`]).
pub fn read_edit_updates(embeds: &Vec<EmbedInfo>) -> (r: Scan)
    ensures
        updates_view(r.updates@) == edit_updates(embeds@).0,
        r.complete == edit_updates(embeds@).1,
{
    if embeds.len() == 0 {
        let out: Vec<WishlistUpdate> = Vec::new();
        assert(updates_view(out@) =~= Seq::<UpdateView>::empty());
        return Scan { updates: out, complete: false };
    }
    let e = &embeds[0];
    if text_contains(&e.title, "(Sort By: Wishlist)") {
        listing_scan(LineKind::SortedByWishlist, e)
    } else if text_is(&e.title, "WISHLIST LEADERBOARD - CHARACTERS") {
        listing_scan(LineKind::LeaderboardCharacters, e)
    } else if text_is(&e.title, "WISHLIST LEADERBOARD - SERIES") {
        listing_scan(LineKind::LeaderboardSeries, e)
    } else if text_contains(&e.description, "Cards Collected:") {
        collection_scan(e)
    } else {
        let out: Vec<WishlistUpdate> = Vec::new();
        assert(updates_view(out@) =~= Seq::<UpdateView>::empty());
        Scan { updates: out, complete: true }
    }
}

/// The card a line of the characters leaderboard names: `` ` • **N** • *S* > `W` `` gives
/// the card `N` of series `S` with `W` wishlists.
pub open spec fn leaderboard_card(line: Seq<char>) -> Option<CharacterView> {
    match (between(line, "` • **"@, "** • *"@), between(line, "** • *"@, "*"@), count_between(
        line,
        "> `"@,
        "`"@,
    )) {
        (Some(n), Some(ser), Some(w)) => Some(CharacterView { name: n, series: ser, gen: None, wl: Some(w) }),
        _ => None,
    }
}

proof fn lemma_leaderboard_lines(lines: Seq<Seq<char>>)
    ensures
        read_lines(LineKind::LeaderboardCharacters, lines, Seq::empty()).0.len() <= lines.len(),
        forall|i: int|
            0 <= i < read_lines(LineKind::LeaderboardCharacters, lines, Seq::empty()).0.len() ==> (
            leaderboard_card(lines[i]) matches Some(c) && #[trigger] read_lines(
                LineKind::LeaderboardCharacters,
                lines,
                Seq::empty(),
            ).0[i] == UpdateView::Card(c)),
    decreases lines.len(),
{
    if lines.len() > 0 {
        lemma_leaderboard_lines(lines.drop_first());
        let r = read_lines(LineKind::LeaderboardCharacters, lines, Seq::empty());
        let rest = read_lines(LineKind::LeaderboardCharacters, lines.drop_first(), Seq::empty());
        match read_line(LineKind::LeaderboardCharacters, lines[0], Seq::empty()) {
            Some(Some(u)) => {
                assert(r.0 == seq![u] + rest.0);
                assert forall|i: int| 0 <= i < r.0.len() implies (leaderboard_card(lines[i]) matches Some(c)
                    && #[trigger] r.0[i] == UpdateView::Card(c)) by {
                    if i > 0 {
                        assert(r.0[i] == rest.0[i - 1]);
                        assert(lines[i] == lines.drop_first()[i - 1]);
                    }
                }
            },
            _ => {},
        }
    }
}

/// The title of the characters leaderboard is not a wishlist-sorted listing's.
proof fn lemma_leaderboard_title()
    ensures
        !contains("WISHLIST LEADERBOARD - CHARACTERS"@, "(Sort By: Wishlist)"@),
{
    reveal_strlit("WISHLIST LEADERBOARD - CHARACTERS");
    reveal_strlit("(Sort By: Wishlist)");
    let t = "WISHLIST LEADERBOARD - CHARACTERS"@;
    let p = "(Sort By: Wishlist)"@;
    if contains(t, p) {
        let k = choose|k: int| occurs_at(t, p, k);
        assert(t.subrange(k, k + p.len())[0] == t[k]);
        assert(t[k] == '(');
        assert(t =~= seq![
            'W', 'I', 'S', 'H', 'L', 'I', 'S', 'T', ' ', 'L', 'E', 'A', 'D', 'E', 'R', 'B', 'O', 'A',
            'R', 'D', ' ', '-', ' ', 'C', 'H', 'A', 'R', 'A', 'C', 'T', 'E', 'R', 'S',
        ]);
        assert(false);
    }
}

/// Law: the characters leaderboard, as an edited message shows it, gives only card updates, one
/// for each of its first lines in order: a line `` ` • **N** • *S* > `W` `` gives the card `N`
/// of series `S`, with no generation and `W` wishlists.
pub proof fn law_leaderboard_edit_gives_cards(embeds: Seq<EmbedInfo>)
    requires
        embeds.len() > 0,
        opt_text(embeds[0].title) == Some("WISHLIST LEADERBOARD - CHARACTERS"@),
    ensures
        forall|i: int|
            0 <= i < edit_updates(embeds).0.len() ==> (opt_text(embeds[0].description) matches Some(d)
                && leaderboard_card(split(d, seq!['\n'])[i]) matches Some(c)
                && #[trigger] edit_updates(embeds).0[i] == UpdateView::Card(c)),
{
    lemma_leaderboard_title();
    assert(!first_title_contains(embeds, "(Sort By: Wishlist)"@));
    match opt_text(embeds[0].description) {
        Some(d) => {
            lemma_leaderboard_lines(split(d, seq!['\n']));
        },
        None => {},
    }
}

} // verus!
