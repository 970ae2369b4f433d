//! A chip read: one sighting of a chip (or a manual entry) at a time.
use vstd::prelude::*;
use vstd::string::StringExecFns;
use crate::text::str_equal;

verus! {

pub const READ_STATUS_UNUSED: u8 = 0;
pub const READ_STATUS_USED: u8 = 1;
pub const READ_STATUS_TOO_SOON: u8 = 2;

pub const READ_UPLOADED_FALSE: u8 = 0;
pub const READ_UPLOADED_TRUE: u8 = 1;

pub const READ_KIND_CHIP: &'static str = "reader";
pub const READ_KIND_MANUAL: &'static str = "manual";
pub const READ_IDENT_TYPE_CHIP: &'static str = "chip";
pub const READ_IDENT_TYPE_BIB: &'static str = "bib";

#[derive(Debug)]
pub struct Read {
    id: u64,
    identifier: String,
    seconds: u64,
    milliseconds: u32,
    reader_seconds: u64,
    reader_milliseconds: u32,
    antenna: u32,
    reader: String,
    rssi: String,
    ident_type: String,
    kind: String,
    status: u8,
    uploaded: u8,
}

/// The contents of a read.
pub struct ReadView {
    pub id: u64,
    pub identifier: Seq<char>,
    pub seconds: u64,
    pub milliseconds: u32,
    pub reader_seconds: u64,
    pub reader_milliseconds: u32,
    pub antenna: u32,
    pub reader: Seq<char>,
    pub rssi: Seq<char>,
    pub ident_type: Seq<char>,
    pub kind: Seq<char>,
    pub status: u8,
    pub uploaded: u8,
}

impl View for Read {
    type V = ReadView;

    closed spec fn view(&self) -> ReadView {
        ReadView {
            id: self.id,
            identifier: self.identifier@,
            seconds: self.seconds,
            milliseconds: self.milliseconds,
            reader_seconds: self.reader_seconds,
            reader_milliseconds: self.reader_milliseconds,
            antenna: self.antenna,
            reader: self.reader@,
            rssi: self.rssi@,
            ident_type: self.ident_type@,
            kind: self.kind@,
            status: self.status,
            uploaded: self.uploaded,
        }
    }
}

/// The read `Read::new` makes: a chip read from a reader.
pub open spec fn new_read_view(
    id: u64,
    chip: Seq<char>,
    seconds: u64,
    milliseconds: u32,
    reader_seconds: u64,
    reader_milliseconds: u32,
    antenna: u32,
    reader: Seq<char>,
    rssi: Seq<char>,
    status: u8,
    uploaded: u8,
) -> ReadView {
    ReadView {
        id,
        identifier: chip,
        seconds,
        milliseconds,
        reader_seconds,
        reader_milliseconds,
        antenna,
        reader,
        rssi,
        ident_type: READ_IDENT_TYPE_CHIP@,
        kind: READ_KIND_CHIP@,
        status,
        uploaded,
    }
}

/// Two reads are the same sighting: everything but the id, the RSSI, the
/// identifier type and the kind agrees.
pub open spec fn same_read(a: ReadView, b: ReadView) -> bool {
    &&& a.identifier == b.identifier
    &&& a.seconds == b.seconds
    &&& a.milliseconds == b.milliseconds
    &&& a.reader_seconds == b.reader_seconds
    &&& a.reader_milliseconds == b.reader_milliseconds
    &&& a.antenna == b.antenna
    &&& a.reader == b.reader
    &&& a.status == b.status
    &&& a.uploaded == b.uploaded
}

/// A read is valid when its identifier type and its kind are ones the portal knows.
pub open spec fn valid_read(r: ReadView) -> bool {
    &&& (r.ident_type == READ_IDENT_TYPE_CHIP@ || r.ident_type == READ_IDENT_TYPE_BIB@)
    &&& (r.kind == READ_KIND_MANUAL@ || r.kind == READ_KIND_CHIP@)
}

/// A change made to a read through one of its setters.
pub enum ReadEdit {
    Status(u8),
    Uploaded(u8),
    Id(u64),
}

/// The read after one setter call.
pub open spec fn apply_edit(r: ReadView, e: ReadEdit) -> ReadView {
    match e {
        ReadEdit::Status(status) => ReadView { status, ..r },
        ReadEdit::Uploaded(uploaded) => ReadView { uploaded, ..r },
        ReadEdit::Id(id) => ReadView { id, ..r },
    }
}

/// The read after a run of setter calls, first to last.
pub open spec fn apply_edits(r: ReadView, edits: Seq<ReadEdit>) -> ReadView
    decreases edits.len(),
{
    if edits.len() == 0 {
        r
    } else {
        apply_edit(apply_edits(r, edits.drop_last()), edits.last())
    }
}

/// The setters never change a read's identifier type, its kind, or whether
/// it is valid, however many of them are called.
pub proof fn law_setters_keep_type_and_kind(r: ReadView, edits: Seq<ReadEdit>)
    ensures
        apply_edits(r, edits).ident_type == r.ident_type,
        apply_edits(r, edits).kind == r.kind,
        valid_read(apply_edits(r, edits)) == valid_read(r),
    decreases edits.len(),
{
    if edits.len() > 0 {
        law_setters_keep_type_and_kind(r, edits.drop_last());
    }
}

/// A read made by `Read::new` stays a valid chip read from a reader after
/// any run of setter calls.
pub proof fn law_new_read_stays_chip_read(
    id: u64,
    chip: Seq<char>,
    seconds: u64,
    milliseconds: u32,
    reader_seconds: u64,
    reader_milliseconds: u32,
    antenna: u32,
    reader: Seq<char>,
    rssi: Seq<char>,
    status: u8,
    uploaded: u8,
    edits: Seq<ReadEdit>,
)
    ensures
        ({
            let r = apply_edits(new_read_view(id, chip, seconds, milliseconds, reader_seconds,
                reader_milliseconds, antenna, reader, rssi, status, uploaded), edits);
            &&& r.ident_type == READ_IDENT_TYPE_CHIP@
            &&& r.kind == READ_KIND_CHIP@
            &&& valid_read(r)
        }),
{
    let r0 = new_read_view(id, chip, seconds, milliseconds, reader_seconds, reader_milliseconds,
        antenna, reader, rssi, status, uploaded);
    law_setters_keep_type_and_kind(r0, edits);
}

impl Read {
    pub fn new(
        id: u64,
        chip: String,
        seconds: u64,
        milliseconds: u32,
        reader_seconds: u64,
        reader_milliseconds: u32,
        antenna: u32,
        reader: String,
        rssi: String,
        status: u8,
        uploaded: u8,
    ) -> (r: Read)
        ensures
            r@ == new_read_view(id, chip@, seconds, milliseconds, reader_seconds, reader_milliseconds,
                antenna, reader@, rssi@, status, uploaded),
    {
        Read {
            id,
            identifier: chip,
            seconds,
            milliseconds,
            reader_seconds,
            reader_milliseconds,
            antenna,
            reader,
            rssi,
            status,
            uploaded,
            ident_type: String::from_str(READ_IDENT_TYPE_CHIP),
            kind: String::from_str(READ_KIND_CHIP),
        }
    }

    /// A read with every field given, as the control protocol and the
    /// database hand them over.
    pub fn from_parts(v: ReadParts) -> (r: Read)
        ensures
            r@ == v@,
    {
        Read {
            id: v.id,
            identifier: v.identifier,
            seconds: v.seconds,
            milliseconds: v.milliseconds,
            reader_seconds: v.reader_seconds,
            reader_milliseconds: v.reader_milliseconds,
            antenna: v.antenna,
            reader: v.reader,
            rssi: v.rssi,
            ident_type: v.ident_type,
            kind: v.kind,
            status: v.status,
            uploaded: v.uploaded,
        }
    }

    /// Every field of the read.
    pub fn to_parts(&self) -> (r: ReadParts)
        ensures
            r@ == self@,
    {
        ReadParts {
            id: self.id,
            identifier: self.identifier.clone(),
            seconds: self.seconds,
            milliseconds: self.milliseconds,
            reader_seconds: self.reader_seconds,
            reader_milliseconds: self.reader_milliseconds,
            antenna: self.antenna,
            reader: self.reader.clone(),
            rssi: self.rssi.clone(),
            ident_type: self.ident_type.clone(),
            kind: self.kind.clone(),
            status: self.status,
            uploaded: self.uploaded,
        }
    }

    pub fn equals(&self, other: &Read) -> (r: bool)
        ensures
            r == same_read(self@, other@),
    {
        self.identifier == other.identifier && self.seconds == other.seconds && self.milliseconds
            == other.milliseconds && self.reader_seconds == other.reader_seconds
            && self.reader_milliseconds == other.reader_milliseconds && self.antenna == other.antenna
            && self.reader == other.reader && self.status == other.status && self.uploaded == other.uploaded
    }

    pub fn id(&self) -> (r: u64)
        ensures
            r == self@.id,
    {
        self.id
    }

    pub fn chip(&self) -> (r: &str)
        ensures
            r@ == self@.identifier,
    {
        self.identifier.as_str()
    }

    pub fn seconds(&self) -> (r: u64)
        ensures
            r == self@.seconds,
    {
        self.seconds
    }

    pub fn milliseconds(&self) -> (r: u32)
        ensures
            r == self@.milliseconds,
    {
        self.milliseconds
    }

    pub fn reader_seconds(&self) -> (r: u64)
        ensures
            r == self@.reader_seconds,
    {
        self.reader_seconds
    }

    pub fn reader_milliseconds(&self) -> (r: u32)
        ensures
            r == self@.reader_milliseconds,
    {
        self.reader_milliseconds
    }

    pub fn antenna(&self) -> (r: u32)
        ensures
            r == self@.antenna,
    {
        self.antenna
    }

    pub fn reader(&self) -> (r: &str)
        ensures
            r@ == self@.reader,
    {
        self.reader.as_str()
    }

    pub fn rssi(&self) -> (r: &str)
        ensures
            r@ == self@.rssi,
    {
        self.rssi.as_str()
    }

    pub fn status(&self) -> (r: u8)
        ensures
            r == self@.status,
    {
        self.status
    }

    pub fn uploaded(&self) -> (r: u8)
        ensures
            r == self@.uploaded,
    {
        self.uploaded
    }

    pub fn set_status(&mut self, status: u8)
        ensures
            final(self)@ == (ReadView { status, ..old(self)@ }),
            final(self)@ == apply_edit(old(self)@, ReadEdit::Status(status)),
    {
        self.status = status;
    }

    /// Gives the read the id the store assigned it.
    pub fn set_id(&mut self, id: u64)
        ensures
            final(self)@ == (ReadView { id, ..old(self)@ }),
            final(self)@ == apply_edit(old(self)@, ReadEdit::Id(id)),
    {
        self.id = id;
    }

    pub fn set_uploaded(&mut self, uploaded: u8)
        ensures
            final(self)@ == (ReadView { uploaded, ..old(self)@ }),
            final(self)@ == apply_edit(old(self)@, ReadEdit::Uploaded(uploaded)),
    {
        self.uploaded = uploaded;
    }

    pub fn ident_type(&self) -> (r: &str)
        ensures
            r@ == self@.ident_type,
    {
        self.ident_type.as_str()
    }

    pub fn kind(&self) -> (r: &str)
        ensures
            r@ == self@.kind,
    {
        self.kind.as_str()
    }

    pub fn is_valid(&self) -> (r: bool)
        ensures
            r == valid_read(self@),
    {
        let mut output = true;
        let it = self.ident_type.as_str();
        if !(str_equal(it, READ_IDENT_TYPE_CHIP) || str_equal(it, READ_IDENT_TYPE_BIB)) {
            output = false;
        }
        let k = self.kind.as_str();
        if !(str_equal(k, READ_KIND_MANUAL) || str_equal(k, READ_KIND_CHIP)) {
            output = false;
        }
        output
    }
}

impl Clone for Read {
    fn clone(&self) -> (r: Read)
        ensures
            r@ == self@,
    {
        Read {
            id: self.id,
            identifier: self.identifier.clone(),
            seconds: self.seconds,
            milliseconds: self.milliseconds,
            reader_seconds: self.reader_seconds,
            reader_milliseconds: self.reader_milliseconds,
            antenna: self.antenna,
            reader: self.reader.clone(),
            rssi: self.rssi.clone(),
            ident_type: self.ident_type.clone(),
            kind: self.kind.clone(),
            status: self.status,
            uploaded: self.uploaded,
        }
    }
}

/// All the fields of a read, for building one from stored or received data.
pub struct ReadParts {
    pub id: u64,
    pub identifier: String,
    pub seconds: u64,
    pub milliseconds: u32,
    pub reader_seconds: u64,
    pub reader_milliseconds: u32,
    pub antenna: u32,
    pub reader: String,
    pub rssi: String,
    pub ident_type: String,
    pub kind: String,
    pub status: u8,
    pub uploaded: u8,
}

impl View for ReadParts {
    type V = ReadView;

    open spec fn view(&self) -> ReadView {
        ReadView {
            id: self.id,
            identifier: self.identifier@,
            seconds: self.seconds,
            milliseconds: self.milliseconds,
            reader_seconds: self.reader_seconds,
            reader_milliseconds: self.reader_milliseconds,
            antenna: self.antenna,
            reader: self.reader@,
            rssi: self.rssi@,
            ident_type: self.ident_type@,
            kind: self.kind@,
            status: self.status,
            uploaded: self.uploaded,
        }
    }
}

} // verus!
