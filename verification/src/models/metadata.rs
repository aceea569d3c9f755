//! A track's stored metadata record: which fields it has, and how a stored record is
//! read back. Each field may appear once; a field left out reads as empty.
//!
//! Times are held as whole seconds and nanoseconds, the way they are stored.

use vstd::prelude::*;
use vstd::string::*;
use crate::utils::text::same_text;

verus! {

/// A field of a stored metadata record.
#[derive(Debug, PartialEq, Eq, Structural, Clone, Copy)]
pub enum MetadataField {
    Track,
    Artist,
    Date,
    Channels,
    Channel,
    StartTime,
    Duration,
    SampleRate,
    SourceUrl,
    Title,
    Thumbnail,
}

impl MetadataField {
    /// The field's name in a stored record.
    pub open spec fn name_spec(self) -> Seq<char> {
        match self {
            MetadataField::Track => "track"@,
            MetadataField::Artist => "artist"@,
            MetadataField::Date => "date"@,
            MetadataField::Channels => "channels"@,
            MetadataField::Channel => "channel"@,
            MetadataField::StartTime => "start_time"@,
            MetadataField::Duration => "duration"@,
            MetadataField::SampleRate => "sample_rate"@,
            MetadataField::SourceUrl => "source_url"@,
            MetadataField::Title => "title"@,
            MetadataField::Thumbnail => "thumbnail"@,
        }
    }

    /// The field's name in a stored record.
    pub fn name(self) -> (r: &'static str)
        ensures
            r@ == self.name_spec(),
    {
        match self {
            MetadataField::Track => "track",
            MetadataField::Artist => "artist",
            MetadataField::Date => "date",
            MetadataField::Channels => "channels",
            MetadataField::Channel => "channel",
            MetadataField::StartTime => "start_time",
            MetadataField::Duration => "duration",
            MetadataField::SampleRate => "sample_rate",
            MetadataField::SourceUrl => "source_url",
            MetadataField::Title => "title",
            MetadataField::Thumbnail => "thumbnail",
        }
    }

    /// The field named `name`, if one is.
    pub fn from_name(name: &str) -> (r: Option<MetadataField>)
        ensures
            match r {
                Some(f) => f.name_spec() == name@,
                None => forall|f: MetadataField| #[trigger] f.name_spec() != name@,
            },
    {
        let all = [
            MetadataField::Track, MetadataField::Artist, MetadataField::Date, MetadataField::Channels,
            MetadataField::Channel, MetadataField::StartTime, MetadataField::Duration,
            MetadataField::SampleRate, MetadataField::SourceUrl, MetadataField::Title,
            MetadataField::Thumbnail,
        ];
        let mut i: usize = 0;
        while i < 11
            invariant
                i <= 11,
                all@ == seq![
                    MetadataField::Track, MetadataField::Artist, MetadataField::Date, MetadataField::Channels,
                    MetadataField::Channel, MetadataField::StartTime, MetadataField::Duration,
                    MetadataField::SampleRate, MetadataField::SourceUrl, MetadataField::Title,
                    MetadataField::Thumbnail,
                ],
                forall|j: int| 0 <= j < i ==> (#[trigger] all@[j]).name_spec() != name@,
            decreases 11 - i,
        {
            let f = all[i];
            if same_text(f.name(), name) {
                return Some(f);
            }
            i = i + 1;
        }
        proof {
            assert forall|f: MetadataField| #[trigger] f.name_spec() != name@ by {
                match f {
                    MetadataField::Track => assert(all@[0] == f),
                    MetadataField::Artist => assert(all@[1] == f),
                    MetadataField::Date => assert(all@[2] == f),
                    MetadataField::Channels => assert(all@[3] == f),
                    MetadataField::Channel => assert(all@[4] == f),
                    MetadataField::StartTime => assert(all@[5] == f),
                    MetadataField::Duration => assert(all@[6] == f),
                    MetadataField::SampleRate => assert(all@[7] == f),
                    MetadataField::SourceUrl => assert(all@[8] == f),
                    MetadataField::Title => assert(all@[9] == f),
                    MetadataField::Thumbnail => assert(all@[10] == f),
                }
            }
        }
        None
    }
}

/// A stored record read back: every field present, empty where the record left it out.
#[derive(Debug)]
pub struct MetadataRecord {
    pub track: String,
    pub artist: String,
    pub date: String,
    pub channels: u8,
    pub channel: String,
    /// Seconds and nanoseconds.
    pub start_time: (u64, u32),
    /// Seconds and nanoseconds.
    pub duration: (u64, u32),
    pub sample_rate: u32,
    pub source_url: String,
    pub title: String,
    pub thumbnail: String,
}

/// One field's value as read from a stored record; a `null` reads as `None`.
pub enum MetadataValue {
    Text(Option<String>),
    Channels(Option<u8>),
    Time(Option<(u64, u32)>),
    Rate(Option<u32>),
}

/// Why a stored record cannot be read back.
#[derive(Debug, PartialEq, Eq, Structural, Clone, Copy)]
pub enum MetadataError {
    /// The field holds a value already.
    DuplicateField(MetadataField),
    /// The value read is not of the field's kind.
    WrongKind(MetadataField),
}

/// The fields read so far from a stored record.
pub struct MetadataFields {
    pub track: Option<String>,
    pub artist: Option<String>,
    pub date: Option<String>,
    pub channels: Option<u8>,
    pub channel: Option<String>,
    pub start_time: Option<(u64, u32)>,
    pub duration: Option<(u64, u32)>,
    pub sample_rate: Option<u32>,
    pub source_url: Option<String>,
    pub title: Option<String>,
    pub thumbnail: Option<String>,
}

/// Whether the value of a text field is there.
pub open spec fn text_set(o: Option<String>) -> bool {
    o is Some
}

impl MetadataFields {
    /// Nothing read yet.
    pub fn new() -> (r: Self)
        ensures
            forall|f: MetadataField| #![trigger r.holds(f)] !r.holds(f),
    {
        MetadataFields {
            track: None, artist: None, date: None, channels: None, channel: None, start_time: None,
            duration: None, sample_rate: None, source_url: None, title: None, thumbnail: None,
        }
    }

    /// Whether field `f` holds a value.
    pub open spec fn holds(&self, f: MetadataField) -> bool {
        match f {
            MetadataField::Track => self.track is Some,
            MetadataField::Artist => self.artist is Some,
            MetadataField::Date => self.date is Some,
            MetadataField::Channels => self.channels is Some,
            MetadataField::Channel => self.channel is Some,
            MetadataField::StartTime => self.start_time is Some,
            MetadataField::Duration => self.duration is Some,
            MetadataField::SampleRate => self.sample_rate is Some,
            MetadataField::SourceUrl => self.source_url is Some,
            MetadataField::Title => self.title is Some,
            MetadataField::Thumbnail => self.thumbnail is Some,
        }
    }

    /// Whether field `f` holds a value: a second value for it is a duplicate. A field
    /// read as `null` holds none.
    pub fn is_set(&self, f: MetadataField) -> (r: bool)
        ensures
            r == self.holds(f),
    {
        match f {
            MetadataField::Track => self.track.is_some(),
            MetadataField::Artist => self.artist.is_some(),
            MetadataField::Date => self.date.is_some(),
            MetadataField::Channels => self.channels.is_some(),
            MetadataField::Channel => self.channel.is_some(),
            MetadataField::StartTime => self.start_time.is_some(),
            MetadataField::Duration => self.duration.is_some(),
            MetadataField::SampleRate => self.sample_rate.is_some(),
            MetadataField::SourceUrl => self.source_url.is_some(),
            MetadataField::Title => self.title.is_some(),
            MetadataField::Thumbnail => self.thumbnail.is_some(),
        }
    }

    /// The value field `f` holds, as the kind of value it takes (`None` where nothing was
    /// read, or where `null` was).
    pub open spec fn value_of(&self, f: MetadataField) -> MetadataValue {
        match f {
            MetadataField::Track => MetadataValue::Text(self.track),
            MetadataField::Artist => MetadataValue::Text(self.artist),
            MetadataField::Date => MetadataValue::Text(self.date),
            MetadataField::Channels => MetadataValue::Channels(self.channels),
            MetadataField::Channel => MetadataValue::Text(self.channel),
            MetadataField::StartTime => MetadataValue::Time(self.start_time),
            MetadataField::Duration => MetadataValue::Time(self.duration),
            MetadataField::SampleRate => MetadataValue::Rate(self.sample_rate),
            MetadataField::SourceUrl => MetadataValue::Text(self.source_url),
            MetadataField::Title => MetadataValue::Text(self.title),
            MetadataField::Thumbnail => MetadataValue::Text(self.thumbnail),
        }
    }

    /// Whether `v` is of the kind field `f` holds.
    pub open spec fn fits(f: MetadataField, v: MetadataValue) -> bool {
        match f {
            MetadataField::Channels => v is Channels,
            MetadataField::StartTime | MetadataField::Duration => v is Time,
            MetadataField::SampleRate => v is Rate,
            _ => v is Text,
        }
    }

    /// Read one field's value: refused as a duplicate when the field holds a value
    /// already, and as the wrong kind when it is not the field's; otherwise the field
    /// holds exactly `v` and every other field stays as it was.
    pub fn accept(&mut self, f: MetadataField, v: MetadataValue) -> (r: Result<(), MetadataError>)
        ensures
            old(self).holds(f) ==> r == Err::<(), MetadataError>(MetadataError::DuplicateField(f)),
            !old(self).holds(f) && !Self::fits(f, v) ==> r == Err::<(), MetadataError>(MetadataError::WrongKind(f)),
            !old(self).holds(f) && Self::fits(f, v) ==> r is Ok,
            r is Err ==> *final(self) == *old(self),
            r is Ok ==> !old(self).holds(f) && Self::fits(f, v)
                && forall|g: MetadataField| g != f ==> (#[trigger] final(self).holds(g)) == old(self).holds(g),
            r is Ok ==> final(self).value_of(f) == v
                && forall|g: MetadataField| g != f ==> #[trigger] final(self).value_of(g) == old(self).value_of(g),
            r is Ok ==> (final(self).holds(f) == match v {
                MetadataValue::Text(o) => o is Some,
                MetadataValue::Channels(o) => o is Some,
                MetadataValue::Time(o) => o is Some,
                MetadataValue::Rate(o) => o is Some,
            }),
    {
        if self.is_set(f) {
            return Err(MetadataError::DuplicateField(f));
        }
        match (f, v) {
            (MetadataField::Track, MetadataValue::Text(o)) => self.track = o,
            (MetadataField::Artist, MetadataValue::Text(o)) => self.artist = o,
            (MetadataField::Date, MetadataValue::Text(o)) => self.date = o,
            (MetadataField::Channels, MetadataValue::Channels(o)) => self.channels = o,
            (MetadataField::Channel, MetadataValue::Text(o)) => self.channel = o,
            (MetadataField::StartTime, MetadataValue::Time(o)) => self.start_time = o,
            (MetadataField::Duration, MetadataValue::Time(o)) => self.duration = o,
            (MetadataField::SampleRate, MetadataValue::Rate(o)) => self.sample_rate = o,
            (MetadataField::SourceUrl, MetadataValue::Text(o)) => self.source_url = o,
            (MetadataField::Title, MetadataValue::Text(o)) => self.title = o,
            (MetadataField::Thumbnail, MetadataValue::Text(o)) => self.thumbnail = o,
            _ => {
                return Err(MetadataError::WrongKind(f));
            },
        }
        Ok(())
    }

    /// The record read: each field's value, or an empty one where none was read.
    pub fn finish(self) -> (r: MetadataRecord)
        ensures
            r.track@ == text_or_empty(self.track),
            r.artist@ == text_or_empty(self.artist),
            r.date@ == text_or_empty(self.date),
            r.channels == match self.channels { Some(c) => c, None => 0 },
            r.channel@ == text_or_empty(self.channel),
            r.start_time == match self.start_time { Some(t) => t, None => (0, 0) },
            r.duration == match self.duration { Some(t) => t, None => (0, 0) },
            r.sample_rate == match self.sample_rate { Some(s) => s, None => 0 },
            r.source_url@ == text_or_empty(self.source_url),
            r.title@ == text_or_empty(self.title),
            r.thumbnail@ == text_or_empty(self.thumbnail),
    {
        MetadataRecord {
            track: take_text(self.track),
            artist: take_text(self.artist),
            date: take_text(self.date),
            channels: match self.channels { Some(c) => c, None => 0 },
            channel: take_text(self.channel),
            start_time: match self.start_time { Some(t) => t, None => (0, 0) },
            duration: match self.duration { Some(t) => t, None => (0, 0) },
            sample_rate: match self.sample_rate { Some(s) => s, None => 0 },
            source_url: take_text(self.source_url),
            title: take_text(self.title),
            thumbnail: take_text(self.thumbnail),
        }
    }
}

/// A text field's value, empty when none was read.
pub open spec fn text_or_empty(o: Option<String>) -> Seq<char> {
    match o {
        Some(s) => s@,
        None => Seq::empty(),
    }
}

pub(crate) fn take_text(o: Option<String>) -> (r: String)
    ensures
        r@ == text_or_empty(o),
{
    match o {
        Some(s) => s,
        None => String::new(),
    }
}

} // verus!
