//! The listing of joinable rooms: how many pages it has and which rooms a
//! page names.

use vstd::prelude::*;
use crate::room::{RoomSpec, chat_url};
use crate::scrape::{class_texts, class_links, class_texts_of, class_links_of};
use crate::text::{nth_segment, nth_segment_of, unsigned_of, parse_unsigned, decimal, decimal_string};
use crate::web::{FormRequest, FormRequestView, field, pairs_view, text_of};

verus! {

/// The first page of the listing, fetched with a GET.
pub open spec fn listing_url() -> Seq<char> {
    chat_url("/rooms?tab=all&sort=active"@)
}

/// The largest page number among the pager's texts that read as integers.
pub open spec fn max_page(texts: Seq<Seq<char>>) -> Option<u64>
    decreases texts.len(),
{
    if texts.len() == 0 {
        None
    } else {
        let rest = max_page(texts.drop_last());
        match unsigned_of(texts.last()) {
            Some(n) => match rest {
                Some(m) => Some(if m >= n { m } else { n }),
                None => Some(n),
            },
            None => rest,
        }
    }
}

/// How many pages the listing has: the largest page number of its pager,
/// or one page when it shows no pager.
pub open spec fn page_total(texts: Seq<Seq<char>>) -> u64 {
    match max_page(texts) {
        Some(n) => n,
        None => 1,
    }
}

/// How many pages a listing has, from the texts of its pager.
pub fn page_count(texts: &Vec<String>) -> (r: u64)
    ensures
        r == page_total(texts@.map_values(|s: String| s@)),
{
    let ghost views = texts@.map_values(|s: String| s@);
    let mut best: Option<u64> = None;
    let mut i: usize = 0;
    while i < texts.len()
        invariant
            i <= texts.len(),
            views == texts@.map_values(|s: String| s@),
            best == max_page(views.take(i as int)),
        decreases texts.len() - i,
    {
        assert(views.take(i + 1).drop_last() =~= views.take(i as int));
        assert(views.take(i + 1).last() == texts@[i as int]@);
        match parse_unsigned(texts[i].as_str()) {
            Some(n) => {
                best = match best {
                    Some(m) => Some(if m >= n { m } else { n }),
                    None => Some(n),
                };
            },
            None => {},
        }
        i = i + 1;
    }
    assert(views.take(texts.len() as int) =~= views);
    match best {
        Some(n) => n,
        None => 1,
    }
}

/// How many pages a listing has, from the HTML of its first page.
pub fn read_page_count(html: &str) -> (r: u64)
    ensures
        r == page_total(class_texts_of(html@, "page-numbers"@)),
{
    let texts = class_texts(html, "page-numbers");
    page_count(&texts)
}

/// The room that a listing link names: the id is the third `/`-separated
/// piece of its `href`.
pub open spec fn room_of_link(link: (Option<Seq<char>>, Seq<char>)) -> Option<(u64, Seq<char>)> {
    match link.0 {
        Some(href) => match nth_segment(href, 2) {
            Some(piece) => match unsigned_of(piece) {
                Some(id) => Some((id, link.1)),
                None => None,
            },
            None => None,
        },
        None => None,
    }
}

pub open spec fn lists_id(rooms: Seq<(u64, Seq<char>)>, id: u64) -> bool {
    exists|i: int| 0 <= i < rooms.len() && (#[trigger] rooms[i]).0 == id
}

/// The rooms after a page's links are read, one after another: a link that
/// names a room whose id is not listed yet adds it at the end.
pub open spec fn listed_rooms(rooms: Seq<(u64, Seq<char>)>, links: Seq<(Option<Seq<char>>, Seq<char>)>) -> Seq<(u64, Seq<char>)>
    decreases links.len(),
{
    if links.len() == 0 {
        rooms
    } else {
        let before = listed_rooms(rooms, links.drop_last());
        match room_of_link(links.last()) {
            Some(room) => if lists_id(before, room.0) {
                before
            } else {
                before.push(room)
            },
            None => before,
        }
    }
}

pub open spec fn rooms_view(rooms: Seq<RoomSpec>) -> Seq<(u64, Seq<char>)> {
    rooms.map_values(|r: RoomSpec| (r.id, r.name@))
}

pub open spec fn links_view(links: Seq<(Option<String>, String)>) -> Seq<(Option<Seq<char>>, Seq<char>)> {
    links.map_values(|p: (Option<String>, String)| (text_of(p.0), p.1@))
}

/// No two rooms share an id.
pub open spec fn ids_unique(rooms: Seq<(u64, Seq<char>)>) -> bool {
    forall|i: int, j: int| 0 <= i < j < rooms.len() ==> (#[trigger] rooms[i]).0 != (#[trigger] rooms[j]).0
}

/// Reading links never lists an id twice.
pub proof fn lemma_listed_ids_unique(rooms: Seq<(u64, Seq<char>)>, links: Seq<(Option<Seq<char>>, Seq<char>)>)
    requires
        ids_unique(rooms),
    ensures
        ids_unique(listed_rooms(rooms, links)),
    decreases links.len(),
{
    if links.len() > 0 {
        let before = listed_rooms(rooms, links.drop_last());
        lemma_listed_ids_unique(rooms, links.drop_last());
        if let Some(room) = room_of_link(links.last()) {
            if !lists_id(before, room.0) {
                let after = before.push(room);
                assert forall|i: int, j: int| 0 <= i < j < after.len() implies (#[trigger] after[i]).0 != (#[trigger] after[j]).0 by {
                    if j == before.len() {
                        assert(after[i] == before[i]);
                    }
                }
            }
        }
    }
}

fn lists_room(rooms: &Vec<RoomSpec>, id: u64) -> (r: bool)
    ensures
        r == lists_id(rooms_view(rooms@), id),
{
    let mut i: usize = 0;
    while i < rooms.len()
        invariant
            i <= rooms.len(),
            forall|j: int| 0 <= j < i ==> (#[trigger] rooms@[j]).id != id,
        decreases rooms.len() - i,
    {
        if rooms[i].id == id {
            assert(rooms_view(rooms@)[i as int].0 == id);
            return true;
        }
        i = i + 1;
    }
    false
}

/// Reads a page's links into the listing.
pub fn add_listed_rooms(rooms: &mut Vec<RoomSpec>, links: Vec<(Option<String>, String)>)
    ensures
        rooms_view(final(rooms)@) == listed_rooms(rooms_view(old(rooms)@), links_view(links@)),
{
    let ghost start = rooms_view(rooms@);
    let ghost lv = links_view(links@);
    let mut i: usize = 0;
    assert(lv.take(0) =~= Seq::<(Option<Seq<char>>, Seq<char>)>::empty());
    while i < links.len()
        invariant
            i <= links.len(),
            lv == links_view(links@),
            rooms_view(rooms@) == listed_rooms(start, lv.take(i as int)),
        decreases links.len() - i,
    {
        assert(lv.take(i + 1).drop_last() =~= lv.take(i as int));
        assert(lv.take(i + 1).last() == lv[i as int]);
        let (href, name) = &links[i];
        let id = match href {
            Some(h) => match nth_segment_of(h.as_str(), 2) {
                Some(piece) => parse_unsigned(piece.as_str()),
                None => None,
            },
            None => None,
        };
        match id {
            Some(id) => {
                if !lists_room(rooms, id) {
                    let ghost before = rooms@;
                    rooms.push(RoomSpec { id, name: name.clone() });
                    assert(rooms_view(rooms@) =~= rooms_view(before).push((id, name@)));
                }
            },
            None => {},
        }
        i = i + 1;
    }
    assert(lv.take(links.len() as int) =~= lv);
}

/// Reads the rooms that a listing page names into the listing.
pub fn read_room_page(rooms: &mut Vec<RoomSpec>, html: &str)
    ensures
        rooms_view(final(rooms)@) == listed_rooms(rooms_view(old(rooms)@), class_links_of(html@, "room-name"@)),
{
    let links = class_links(html, "room-name");
    add_listed_rooms(rooms, links);
}

/// The post that asks for page `page` of the listing.
pub fn listing_request(page: u64) -> (r: FormRequest)
    ensures
        r@ == (FormRequestView {
            url: chat_url("/rooms"@),
            referer: None,
            fields: seq![
                ("tab"@, "all"@),
                ("sort"@, "active"@),
                ("filter"@, ""@),
                ("pageSize"@, "21"@),
                ("page"@, decimal(page as nat)),
            ],
        }),
{
    let page_text = decimal_string(page);
    let fields = vec![
        field("tab", "all"),
        field("sort", "active"),
        field("filter", ""),
        field("pageSize", "21"),
        field("page", page_text.as_str()),
    ];
    proof {
        reveal_strlit("https://chat.stackexchange.com/rooms");
        reveal_strlit("https://chat.stackexchange.com");
        reveal_strlit("/rooms");
    }
    let url = String::from_str("https://chat.stackexchange.com/rooms");
    assert(url@ =~= chat_url("/rooms"@));
    let r = FormRequest { url, referer: None, fields };
    assert(pairs_view(r.fields@) =~= seq![
        ("tab"@, "all"@),
        ("sort"@, "active"@),
        ("filter"@, ""@),
        ("pageSize"@, "21"@),
        ("page"@, decimal(page as nat)),
    ]);
    r
}

/// The address of the listing's first page.
pub fn listing_url_string() -> (r: String)
    ensures
        r@ == listing_url(),
{
    proof {
        reveal_strlit("https://chat.stackexchange.com/rooms?tab=all&sort=active");
        reveal_strlit("https://chat.stackexchange.com");
        reveal_strlit("/rooms?tab=all&sort=active");
    }
    let url = String::from_str("https://chat.stackexchange.com/rooms?tab=all&sort=active");
    assert(url@ =~= listing_url());
    url
}

} // verus!
