//! Merging an update into the tags that a file holds.
use vstd::prelude::*;
use crate::types::datetime::DateTime;
use crate::types::image::Image;
use crate::types::tags::TagOption;
use crate::types::tags::Tags;
use crate::types::tags::TagsView;

verus! {

/// One field after an update: the new value if there is one; without a
/// new value the old one, where the update is `Mixed`; else no value.
pub open spec fn delta_field<T>(old: TagOption<T>, new: TagOption<T>) -> TagOption<T> {
    match new {
        TagOption::Present(x) => TagOption::Present(x),
        TagOption::Mixed => match old {
            TagOption::Present(x) => TagOption::Present(x),
            _ => TagOption::Absent,
        },
        TagOption::Absent => TagOption::Absent,
    }
}

/// The tags after the update `new` of the tags `old`, field by field. The
/// rating is not kept.
pub open spec fn delta_view(old: TagsView, new: TagsView) -> TagsView {
    TagsView {
        title: delta_field(old.title, new.title),
        album: delta_field(old.album, new.album),
        artist: delta_field(old.artist, new.artist),
        album_artist: delta_field(old.album_artist, new.album_artist),
        composer: delta_field(old.composer, new.composer),
        grouping: delta_field(old.grouping, new.grouping),
        genre: delta_field(old.genre, new.genre),
        date: delta_field(old.date, new.date),
        track_number: delta_field(old.track_number, new.track_number),
        track_total: delta_field(old.track_total, new.track_total),
        disc_number: delta_field(old.disc_number, new.disc_number),
        disc_total: delta_field(old.disc_total, new.disc_total),
        bpm: delta_field(old.bpm, new.bpm),
        is_compilation: delta_field(old.is_compilation, new.is_compilation),
        comment: delta_field(old.comment, new.comment),
        sort_title: delta_field(old.sort_title, new.sort_title),
        sort_album: delta_field(old.sort_album, new.sort_album),
        sort_artist: delta_field(old.sort_artist, new.sort_artist),
        sort_album_artist: delta_field(old.sort_album_artist, new.sort_album_artist),
        sort_composer: delta_field(old.sort_composer, new.sort_composer),
        front_cover: delta_field(old.front_cover, new.front_cover),
        rating: TagOption::Absent,
    }
}

/// The merged text field.
fn delta_text(old: &TagOption<String>, new: &TagOption<String>) -> (r: TagOption<String>)
    ensures
        r@ == delta_field(old@, new@),
{
    match new {
        TagOption::Present(x) => TagOption::Present(x.clone()),
        TagOption::Mixed => match old {
            TagOption::Present(x) => TagOption::Present(x.clone()),
            _ => TagOption::Absent,
        },
        TagOption::Absent => TagOption::Absent,
    }
}

/// The merged number field.
fn delta_number(old: &TagOption<i64>, new: &TagOption<i64>) -> (r: TagOption<i64>)
    ensures
        r == delta_field(*old, *new),
{
    match new {
        TagOption::Present(x) => TagOption::Present(*x),
        TagOption::Mixed => match old {
            TagOption::Present(x) => TagOption::Present(*x),
            _ => TagOption::Absent,
        },
        TagOption::Absent => TagOption::Absent,
    }
}

/// The merged flag.
fn delta_flag(old: &TagOption<bool>, new: &TagOption<bool>) -> (r: TagOption<bool>)
    ensures
        r == delta_field(*old, *new),
{
    match new {
        TagOption::Present(x) => TagOption::Present(*x),
        TagOption::Mixed => match old {
            TagOption::Present(x) => TagOption::Present(*x),
            _ => TagOption::Absent,
        },
        TagOption::Absent => TagOption::Absent,
    }
}

/// The merged date.
fn delta_date(old: &TagOption<DateTime>, new: &TagOption<DateTime>) -> (r: TagOption<DateTime>)
    ensures
        r == delta_field(*old, *new),
{
    match new {
        TagOption::Present(x) => TagOption::Present(*x),
        TagOption::Mixed => match old {
            TagOption::Present(x) => TagOption::Present(*x),
            _ => TagOption::Absent,
        },
        TagOption::Absent => TagOption::Absent,
    }
}

/// The merged cover.
fn delta_image(old: &TagOption<Image>, new: &TagOption<Image>) -> (r: TagOption<Image>)
    ensures
        r@ == delta_field(old@, new@),
{
    match new {
        TagOption::Present(x) => TagOption::Present(x.clone()),
        TagOption::Mixed => match old {
            TagOption::Present(x) => TagOption::Present(x.clone()),
            _ => TagOption::Absent,
        },
        TagOption::Absent => TagOption::Absent,
    }
}

/// The tags to write: `new` where it has a value or asks for none, `old`
/// where `new` is `Mixed`.
pub fn delta(old: &Tags, new: &Tags) -> (r: Tags)
    ensures
        r@ == delta_view(old@, new@),
{
    Tags {
        title: delta_text(&old.title, &new.title),
        album: delta_text(&old.album, &new.album),
        artist: delta_text(&old.artist, &new.artist),
        album_artist: delta_text(&old.album_artist, &new.album_artist),
        composer: delta_text(&old.composer, &new.composer),
        grouping: delta_text(&old.grouping, &new.grouping),
        genre: delta_text(&old.genre, &new.genre),
        date: delta_date(&old.date, &new.date),
        track_number: delta_number(&old.track_number, &new.track_number),
        track_total: delta_number(&old.track_total, &new.track_total),
        disc_number: delta_number(&old.disc_number, &new.disc_number),
        disc_total: delta_number(&old.disc_total, &new.disc_total),
        bpm: delta_number(&old.bpm, &new.bpm),
        is_compilation: delta_flag(&old.is_compilation, &new.is_compilation),
        comment: delta_text(&old.comment, &new.comment),
        sort_title: delta_text(&old.sort_title, &new.sort_title),
        sort_album: delta_text(&old.sort_album, &new.sort_album),
        sort_artist: delta_text(&old.sort_artist, &new.sort_artist),
        sort_album_artist: delta_text(&old.sort_album_artist, &new.sort_album_artist),
        sort_composer: delta_text(&old.sort_composer, &new.sort_composer),
        front_cover: delta_image(&old.front_cover, &new.front_cover),
        rating: TagOption::Absent,
    }
}

/// An update without `Mixed` fields and without a rating replaces the tags.
pub proof fn lemma_delta_replaces(old: TagsView, new: TagsView)
    requires
        !(new.title is Mixed),
        !(new.album is Mixed),
        !(new.artist is Mixed),
        !(new.album_artist is Mixed),
        !(new.composer is Mixed),
        !(new.grouping is Mixed),
        !(new.genre is Mixed),
        !(new.date is Mixed),
        !(new.track_number is Mixed),
        !(new.track_total is Mixed),
        !(new.disc_number is Mixed),
        !(new.disc_total is Mixed),
        !(new.bpm is Mixed),
        !(new.is_compilation is Mixed),
        !(new.comment is Mixed),
        !(new.sort_title is Mixed),
        !(new.sort_album is Mixed),
        !(new.sort_artist is Mixed),
        !(new.sort_album_artist is Mixed),
        !(new.sort_composer is Mixed),
        !(new.front_cover is Mixed),
        new.rating is Absent,
    ensures
        delta_view(old, new) == new,
{
}

/// An update of `Mixed` fields keeps the values that the tags hold, and
/// turns a `Mixed` field of theirs into no value.
pub proof fn lemma_delta_mixed_keeps(old: TagsView)
    ensures
        delta_view(old, TagsView::mixed()) == delta_view(TagsView::none(), old),
{
}

/// What a merge gives has no `Mixed` field, and merging it again changes nothing.
pub proof fn lemma_delta_settles(old: TagsView, new: TagsView, other: TagsView)
    ensures
        delta_view(other, delta_view(old, new)) == delta_view(old, new),
{
}

} // verus!
