//! Now-playing metadata for the frontend, mapped from what the player reports
//! about the current audio item. The fiddly bits (joining several artists,
//! choosing the best cover image) are pure functions with exact contracts.

use vstd::prelude::*;

use crate::text::{trim, trimmed};

verus! {

/// Now-playing track metadata surfaced to the UI.
#[derive(Debug, Clone)]
pub struct TrackMeta {
    pub title: String,
    pub artist: String,
    pub album: String,
    /// URL of the largest available cover image, if any.
    pub art_url: Option<String>,
    pub duration_ms: u32,
}

impl Default for TrackMeta {
    fn default() -> (r: Self)
        ensures
            r.title@.len() == 0,
            r.artist@.len() == 0,
            r.album@.len() == 0,
            r.art_url is None,
            r.duration_ms == 0,
    {
        TrackMeta {
            title: String::new(),
            artist: String::new(),
            album: String::new(),
            art_url: None,
            duration_ms: 0,
        }
    }
}

/// What distinguishes the kinds of playable item.
#[derive(Debug, Clone)]
pub enum ItemKind {
    /// A catalogue track, with its credited artists and album.
    Track { artists: Vec<String>, album: String },
    /// A podcast episode of a show.
    Episode { show_name: String },
    /// A local file, whose tags may be missing.
    Local { artists: Option<String>, album: Option<String> },
}

/// The player's description of the current audio item, as plain values.
#[derive(Debug, Clone)]
pub struct AudioItemInfo {
    pub name: String,
    pub kind: ItemKind,
    /// `(url, width, height)` of each available cover image.
    pub covers: Vec<(String, i32, i32)>,
    pub duration_ms: u32,
}

/// The names that survive blank-dropping, in order.
pub open spec fn nonblank(names: Seq<Seq<char>>) -> Seq<Seq<char>>
    decreases names.len(),
{
    if names.len() == 0 {
        Seq::empty()
    } else {
        let rest = nonblank(names.drop_last());
        if trim(names.last()).len() == 0 {
            rest
        } else {
            rest.push(names.last())
        }
    }
}

/// `parts` joined with `sep` between consecutive parts.
pub open spec fn join_with(parts: Seq<Seq<char>>, sep: Seq<char>) -> Seq<char>
    decreases parts.len(),
{
    if parts.len() == 0 {
        Seq::empty()
    } else if parts.len() == 1 {
        parts[0]
    } else {
        join_with(parts.drop_last(), sep) + sep + parts.last()
    }
}

/// The views of a list of strings.
pub open spec fn views(v: Seq<String>) -> Seq<Seq<char>> {
    v.map_values(|s: String| s@)
}

/// Join artist names for display, comma-separated. Blank names are dropped so
/// a stray blank never yields `", "`.
pub fn join_artists(names: &[String]) -> (r: String)
    ensures
        r@ == join_with(nonblank(views(names@)), ", "@),
{
    let mut out = String::new();
    let mut any = false;
    let mut i: usize = 0;
    while i < names.len()
        invariant
            i <= names@.len(),
            out@ == join_with(nonblank(views(names@.take(i as int))), ", "@),
            any == (nonblank(views(names@.take(i as int))).len() > 0),
        decreases names@.len() - i,
    {
        let ghost before = nonblank(views(names@.take(i as int)));
        assert(views(names@.take(i + 1)).drop_last() =~= views(names@.take(i as int)));
        assert(views(names@.take(i + 1)).last() == names@[i as int]@);
        let t = trimmed(names[i].as_str());
        if t.as_str().unicode_len() > 0 {
            if any {
                out.append(", ");
            }
            out.append(names[i].as_str());
            proof {
                let after = nonblank(views(names@.take(i + 1)));
                assert(after == before.push(names@[i as int]@));
                assert(after.drop_last() =~= before);
                if before.len() == 0 {
                    assert(Seq::<char>::empty() + names@[i as int]@ =~= names@[i as int]@);
                }
            }
            any = true;
        }
        i = i + 1;
    }
    assert(names@.take(i as int) =~= names@);
    out
}

/// Some names remain after dropping blanks exactly when one of the names is
/// not blank.
proof fn lemma_nonblank_some(names: Seq<Seq<char>>)
    ensures
        nonblank(names).len() > 0 <==> exists|i: int|
            0 <= i < names.len() && trim(#[trigger] names[i]).len() > 0,
    decreases names.len(),
{
    if names.len() > 0 {
        let init = names.drop_last();
        lemma_nonblank_some(init);
        if exists|i: int| 0 <= i < init.len() && trim(#[trigger] init[i]).len() > 0 {
            let i = choose|i: int| 0 <= i < init.len() && trim(#[trigger] init[i]).len() > 0;
            assert(names[i] == init[i]);
        }
        if exists|i: int| 0 <= i < names.len() && trim(#[trigger] names[i]).len() > 0 {
            let i = choose|i: int| 0 <= i < names.len() && trim(#[trigger] names[i]).len() > 0;
            if i < names.len() - 1 {
                assert(init[i] == names[i]);
            }
        }
        assert(names.last() == names[names.len() - 1]);
    }
}

/// How the displayed artists grow by one name: a blank name changes
/// nothing; a visible one is appended after `", "` when some artist is
/// already shown, and is the whole text when none is. With the empty list
/// showing nothing, this fixes the text of every list: each visible name
/// appears, in order, once.
pub proof fn law_join_artists_push(names: Seq<Seq<char>>, x: Seq<char>)
    ensures
        join_with(nonblank(Seq::<Seq<char>>::empty()), ", "@) == Seq::<char>::empty(),
        trim(x).len() == 0 ==> join_with(nonblank(names.push(x)), ", "@) == join_with(
            nonblank(names),
            ", "@,
        ),
        trim(x).len() > 0 && (exists|i: int|
            0 <= i < names.len() && trim(#[trigger] names[i]).len() > 0) ==> join_with(
            nonblank(names.push(x)),
            ", "@,
        ) == join_with(nonblank(names), ", "@) + ", "@ + x,
        trim(x).len() > 0 && (forall|i: int|
            0 <= i < names.len() ==> trim(#[trigger] names[i]).len() == 0) ==> join_with(
            nonblank(names.push(x)),
            ", "@,
        ) == x,
{
    let ns = names.push(x);
    assert(ns.drop_last() =~= names);
    assert(ns.last() == x);
    lemma_nonblank_some(names);
    let rest = nonblank(names);
    if trim(x).len() > 0 {
        assert(nonblank(ns) == rest.push(x));
        assert(rest.push(x).drop_last() =~= rest);
        if rest.len() == 0 {
            assert(rest.push(x)[0] == x);
        }
    }
}

/// The pixel area a cover is ranked by.
pub open spec fn cover_area(c: (String, i32, i32)) -> int {
    c.1 as int * c.2 as int
}

/// `k` is the last cover of largest area.
pub open spec fn is_largest_cover(covers: Seq<(String, i32, i32)>, k: int) -> bool {
    &&& 0 <= k < covers.len()
    &&& forall|j: int| 0 <= j < covers.len() ==> cover_area(#[trigger] covers[j]) <= cover_area(
        covers[k],
    )
    &&& forall|j: int| k < j < covers.len() ==> cover_area(#[trigger] covers[j]) < cover_area(
        covers[k],
    )
}

fn area(c: &(String, i32, i32)) -> (r: i64)
    ensures
        r == cover_area(*c),
{
    let w = c.1 as i64;
    let h = c.2 as i64;
    assert(-0x8000_0000 * 0x8000_0000 <= w * h <= 0x8000_0000 * 0x8000_0000) by (nonlinear_arith)
        requires
            -0x8000_0000 <= w < 0x8000_0000,
            -0x8000_0000 <= h < 0x8000_0000,
    ;
    w * h
}

/// The URL of the largest cover by pixel area; on a tie the later cover wins.
/// Zero-area (dimensionless) covers still count, so a lone one is kept.
/// `None` only when there are no covers.
pub fn pick_largest_cover(covers: &[(String, i32, i32)]) -> (r: Option<String>)
    ensures
        covers@.len() == 0 <==> r is None,
        r matches Some(u) ==> exists|k: int| #[trigger]
            is_largest_cover(covers@, k) && u@ == covers@[k].0@,
{
    if covers.len() == 0 {
        return None;
    }
    let mut best: usize = 0;
    let mut best_area = area(&covers[0]);
    let mut i: usize = 1;
    while i < covers.len()
        invariant
            1 <= i <= covers@.len(),
            best < i,
            best_area == cover_area(covers@[best as int]),
            forall|j: int| 0 <= j < i ==> cover_area(#[trigger] covers@[j]) <= best_area,
            forall|j: int| best < j < i ==> cover_area(#[trigger] covers@[j]) < best_area,
        decreases covers@.len() - i,
    {
        let a = area(&covers[i]);
        if a >= best_area {
            best = i;
            best_area = a;
        }
        i = i + 1;
    }
    let u = covers[best].0.clone();
    assert(is_largest_cover(covers@, best as int));
    Some(u)
}

/// The `(artist, album)` credited for an item: a track's non-blank artists
/// joined, an episode's show, a local file's tags (blank when missing).
pub open spec fn credited(kind: ItemKind) -> (Seq<char>, Seq<char>) {
    match kind {
        ItemKind::Track { artists, album } => (
            join_with(nonblank(views(artists@)), ", "@),
            album@,
        ),
        ItemKind::Episode { show_name } => (show_name@, Seq::empty()),
        ItemKind::Local { artists, album } => (
            match artists {
                Some(a) => a@,
                None => Seq::empty(),
            },
            match album {
                Some(a) => a@,
                None => Seq::empty(),
            },
        ),
    }
}

fn text_or_blank(s: &Option<String>) -> (r: String)
    ensures
        r@ == match s {
            Some(a) => a@,
            None => Seq::<char>::empty(),
        },
{
    match s {
        Some(a) => a.clone(),
        None => String::new(),
    }
}

impl TrackMeta {
    /// The UI shape of an audio item: tracks, podcast episodes and local files
    /// alike; unknown artist or album degrade to empty strings.
    pub fn from_item(item: &AudioItemInfo) -> (r: Self)
        ensures
            r.title@ == item.name@,
            (r.artist@, r.album@) == credited(item.kind),
            r.duration_ms == item.duration_ms,
            item.covers@.len() == 0 <==> r.art_url is None,
            r.art_url matches Some(u) ==> exists|k: int| #[trigger]
                is_largest_cover(item.covers@, k) && u@ == item.covers@[k].0@,
    {
        let (artist, album) = match &item.kind {
            ItemKind::Track { artists, album } => (join_artists(artists.as_slice()), album.clone()),
            ItemKind::Episode { show_name } => (show_name.clone(), String::new()),
            ItemKind::Local { artists, album } => (text_or_blank(artists), text_or_blank(album)),
        };
        TrackMeta {
            title: item.name.clone(),
            artist,
            album,
            art_url: pick_largest_cover(item.covers.as_slice()),
            duration_ms: item.duration_ms,
        }
    }
}

} // verus!
