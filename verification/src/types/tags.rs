//! The tri-state tag field and the set of tags of one file.
use vstd::prelude::*;
use crate::types::datetime::DateTime;
use crate::types::image::Image;
use crate::types::image::ImageView;

verus! {

/// One tag attribute: a value, "leave what is there" (`Mixed`), or no value.
#[derive(PartialEq, Debug)]
pub enum TagOption<T> {
    Present(T),
    /// The "do not overwrite" state of an update.
    Mixed,
    Absent,
}

impl<T: View> View for TagOption<T> {
    type V = TagOption<T::V>;

    open spec fn view(&self) -> TagOption<T::V> {
        match self {
            TagOption::Present(x) => TagOption::Present(x@),
            TagOption::Mixed => TagOption::Mixed,
            TagOption::Absent => TagOption::Absent,
        }
    }
}

/// The field that `Option` stands for: a value or no value.
pub open spec fn from_option<T>(option: Option<T>) -> TagOption<T> {
    match option {
        Some(x) => TagOption::Present(x),
        None => TagOption::Absent,
    }
}

impl<T> From<Option<T>> for TagOption<T> {
    fn from(option: Option<T>) -> (r: Self) {
        match option {
            Some(x) => TagOption::Present(x),
            None => TagOption::Absent,
        }
    }
}

impl<T> vstd::std_specs::convert::FromSpecImpl<Option<T>> for TagOption<T> {
    open spec fn obeys_from_spec() -> bool {
        true
    }

    open spec fn from_spec(option: Option<T>) -> Self {
        from_option(option)
    }
}

impl<T> Default for TagOption<T> {
    fn default() -> (r: TagOption<T>)
        ensures
            r is Absent,
    {
        TagOption::Absent
    }
}

impl<T> TagOption<T> {
    /// The value, if there is one.
    pub open spec fn spec_to_option(self) -> Option<T> {
        match self {
            TagOption::Present(x) => Some(x),
            _ => None,
        }
    }

    /// The value, if one is present.
    pub fn to_option(self) -> (r: Option<T>)
        ensures
            r == self.spec_to_option(),
    {
        match self {
            TagOption::Present(x) => Some(x),
            _ => None,
        }
    }

    /// The value, or `def` where none is present.
    pub fn unwrap_or(self, def: T) -> (r: T)
        ensures
            r == (match self {
                TagOption::Present(x) => x,
                _ => def,
            }),
    {
        match self {
            TagOption::Present(x) => x,
            _ => def,
        }
    }

    /// The value of a field that is present.
    pub fn unwrap(self) -> (r: T)
        requires
            self is Present,
        ensures
            self == TagOption::Present(r),
    {
        match self {
            TagOption::Present(val) => val,
            _ => vstd::pervasive::unreached(),
        }
    }

    /// Whether a value is present.
    pub fn is_some(&self) -> (r: bool)
        ensures
            r == (self is Present),
    {
        match self {
            TagOption::Present(_) => true,
            _ => false,
        }
    }

    /// Whether no value is present at all: the field is absent.
    pub fn is_none(&self) -> (r: bool)
        ensures
            r == (self is Absent),
    {
        match self {
            TagOption::Absent => true,
            _ => false,
        }
    }

    /// The field with a reference to its value.
    pub fn as_ref(&self) -> (r: TagOption<&T>)
        ensures
            r == (match *self {
                TagOption::Present(x) => TagOption::Present(&x),
                TagOption::Mixed => TagOption::Mixed,
                TagOption::Absent => TagOption::Absent,
            }),
    {
        match self {
            TagOption::Present(x) => TagOption::Present(x),
            TagOption::Mixed => TagOption::Mixed,
            TagOption::Absent => TagOption::Absent,
        }
    }
}

/// The tags of one file.
#[derive(PartialEq, Debug)]
pub struct Tags {
    pub title: TagOption<String>,
    pub album: TagOption<String>,
    pub artist: TagOption<String>,
    pub album_artist: TagOption<String>,
    pub composer: TagOption<String>,
    pub grouping: TagOption<String>,
    pub genre: TagOption<String>,
    /// ISO 8601
    pub date: TagOption<DateTime>,
    pub track_number: TagOption<i64>,
    pub track_total: TagOption<i64>,
    pub disc_number: TagOption<i64>,
    pub disc_total: TagOption<i64>,
    pub bpm: TagOption<i64>,
    pub is_compilation: TagOption<bool>,
    pub comment: TagOption<String>,
    pub sort_title: TagOption<String>,
    pub sort_album: TagOption<String>,
    pub sort_artist: TagOption<String>,
    pub sort_album_artist: TagOption<String>,
    pub sort_composer: TagOption<String>,
    pub front_cover: TagOption<Image>,
    pub rating: TagOption<u8>,
}

/// What contracts say of [`Tags`]: text as characters, the cover as bytes.
pub struct TagsView {
    pub title: TagOption<Seq<char>>,
    pub album: TagOption<Seq<char>>,
    pub artist: TagOption<Seq<char>>,
    pub album_artist: TagOption<Seq<char>>,
    pub composer: TagOption<Seq<char>>,
    pub grouping: TagOption<Seq<char>>,
    pub genre: TagOption<Seq<char>>,
    pub date: TagOption<DateTime>,
    pub track_number: TagOption<i64>,
    pub track_total: TagOption<i64>,
    pub disc_number: TagOption<i64>,
    pub disc_total: TagOption<i64>,
    pub bpm: TagOption<i64>,
    pub is_compilation: TagOption<bool>,
    pub comment: TagOption<Seq<char>>,
    pub sort_title: TagOption<Seq<char>>,
    pub sort_album: TagOption<Seq<char>>,
    pub sort_artist: TagOption<Seq<char>>,
    pub sort_album_artist: TagOption<Seq<char>>,
    pub sort_composer: TagOption<Seq<char>>,
    pub front_cover: TagOption<ImageView>,
    pub rating: TagOption<u8>,
}

impl TagsView {
    /// The tags with every field in one state.
    pub open spec fn uniform(mixed: bool) -> TagsView {
        TagsView {
            title: if mixed { TagOption::Mixed } else { TagOption::Absent },
            album: if mixed { TagOption::Mixed } else { TagOption::Absent },
            artist: if mixed { TagOption::Mixed } else { TagOption::Absent },
            album_artist: if mixed { TagOption::Mixed } else { TagOption::Absent },
            composer: if mixed { TagOption::Mixed } else { TagOption::Absent },
            grouping: if mixed { TagOption::Mixed } else { TagOption::Absent },
            genre: if mixed { TagOption::Mixed } else { TagOption::Absent },
            date: if mixed { TagOption::Mixed } else { TagOption::Absent },
            track_number: if mixed { TagOption::Mixed } else { TagOption::Absent },
            track_total: if mixed { TagOption::Mixed } else { TagOption::Absent },
            disc_number: if mixed { TagOption::Mixed } else { TagOption::Absent },
            disc_total: if mixed { TagOption::Mixed } else { TagOption::Absent },
            bpm: if mixed { TagOption::Mixed } else { TagOption::Absent },
            is_compilation: if mixed { TagOption::Mixed } else { TagOption::Absent },
            comment: if mixed { TagOption::Mixed } else { TagOption::Absent },
            sort_title: if mixed { TagOption::Mixed } else { TagOption::Absent },
            sort_album: if mixed { TagOption::Mixed } else { TagOption::Absent },
            sort_artist: if mixed { TagOption::Mixed } else { TagOption::Absent },
            sort_album_artist: if mixed { TagOption::Mixed } else { TagOption::Absent },
            sort_composer: if mixed { TagOption::Mixed } else { TagOption::Absent },
            front_cover: if mixed { TagOption::Mixed } else { TagOption::Absent },
            rating: if mixed { TagOption::Mixed } else { TagOption::Absent },
        }
    }

    /// No field has a value.
    pub open spec fn none() -> TagsView {
        TagsView::uniform(false)
    }

    /// Every field is `Mixed`: an update that changes nothing.
    pub open spec fn mixed() -> TagsView {
        TagsView::uniform(true)
    }
}

impl View for Tags {
    type V = TagsView;

    open spec fn view(&self) -> TagsView {
        TagsView {
            title: self.title@,
            album: self.album@,
            artist: self.artist@,
            album_artist: self.album_artist@,
            composer: self.composer@,
            grouping: self.grouping@,
            genre: self.genre@,
            date: self.date,
            track_number: self.track_number,
            track_total: self.track_total,
            disc_number: self.disc_number,
            disc_total: self.disc_total,
            bpm: self.bpm,
            is_compilation: self.is_compilation,
            comment: self.comment@,
            sort_title: self.sort_title@,
            sort_album: self.sort_album@,
            sort_artist: self.sort_artist@,
            sort_album_artist: self.sort_album_artist@,
            sort_composer: self.sort_composer@,
            front_cover: self.front_cover@,
            rating: self.rating,
        }
    }
}

impl Default for Tags {
    fn default() -> (r: Tags)
        ensures
            r@ == TagsView::none(),
    {
        Tags::none()
    }
}

impl Tags {
    /// Tags in which no field has a value.
    pub fn none() -> (r: Tags)
        ensures
            r@ == TagsView::none(),
    {
        Tags {
            title: TagOption::Absent,
            album: TagOption::Absent,
            artist: TagOption::Absent,
            album_artist: TagOption::Absent,
            composer: TagOption::Absent,
            grouping: TagOption::Absent,
            genre: TagOption::Absent,
            date: TagOption::Absent,
            track_number: TagOption::Absent,
            track_total: TagOption::Absent,
            disc_number: TagOption::Absent,
            disc_total: TagOption::Absent,
            bpm: TagOption::Absent,
            is_compilation: TagOption::Absent,
            comment: TagOption::Absent,
            sort_title: TagOption::Absent,
            sort_album: TagOption::Absent,
            sort_artist: TagOption::Absent,
            sort_album_artist: TagOption::Absent,
            sort_composer: TagOption::Absent,
            front_cover: TagOption::Absent,
            rating: TagOption::Absent,
        }
    }

    /// Tags in which every field is `Mixed`.
    pub fn mixed() -> (r: Tags)
        ensures
            r@ == TagsView::mixed(),
    {
        Tags {
            title: TagOption::Mixed,
            album: TagOption::Mixed,
            artist: TagOption::Mixed,
            album_artist: TagOption::Mixed,
            composer: TagOption::Mixed,
            grouping: TagOption::Mixed,
            genre: TagOption::Mixed,
            date: TagOption::Mixed,
            track_number: TagOption::Mixed,
            track_total: TagOption::Mixed,
            disc_number: TagOption::Mixed,
            disc_total: TagOption::Mixed,
            bpm: TagOption::Mixed,
            is_compilation: TagOption::Mixed,
            comment: TagOption::Mixed,
            sort_title: TagOption::Mixed,
            sort_album: TagOption::Mixed,
            sort_artist: TagOption::Mixed,
            sort_album_artist: TagOption::Mixed,
            sort_composer: TagOption::Mixed,
            front_cover: TagOption::Mixed,
            rating: TagOption::Mixed,
        }
    }
}

} // verus!
