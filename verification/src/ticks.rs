use vstd::prelude::*;
use vstd::string::*;
use crate::text::{byte_len, byte_slice, byte_slice_string, on_boundary};

verus! {

/// A trade tick whose fields are already rendered as text.
pub struct StringGenericTick {
    pub ts: String,
    pub p: String,
    pub v: String,
}

/// `ts,p,v` followed by a newline.
pub open spec fn tick_line(ts: Seq<char>, p: Seq<char>, v: Seq<char>) -> Seq<char> {
    ts + ","@ + p + ","@ + v + "\n"@
}

/// The tick as a JSON object whose values are spliced in verbatim.
pub open spec fn tick_json(ts: Seq<char>, p: Seq<char>, v: Seq<char>) -> Seq<char> {
    "{\"ts\" :"@ + ts + ",\"p\" :"@ + p + ",\"v\":"@ + v + "}"@
}

impl StringGenericTick {
    /// The tick as one CSV line.
    pub fn to_string(&self) -> (s: String)
        ensures
            s@ == tick_line(self.ts@, self.p@, self.v@),
    {
        let mut owned_str = String::new();
        owned_str.append(self.ts.as_str());
        owned_str.append(",");
        owned_str.append(self.p.as_str());
        owned_str.append(",");
        owned_str.append(self.v.as_str());
        owned_str.append("\n");
        assert(owned_str@ =~= tick_line(self.ts@, self.p@, self.v@));
        owned_str
    }

    /// The tick as a JSON object.
    pub fn to_json(&self) -> (s: String)
        ensures
            s@ == tick_json(self.ts@, self.p@, self.v@),
    {
        let mut s = String::new();
        s.append("{\"ts\" :");
        s.append(self.ts.as_str());
        s.append(",\"p\" :");
        s.append(self.p.as_str());
        s.append(",\"v\":");
        s.append(self.v.as_str());
        s.append("}");
        assert(s@ =~= tick_json(self.ts@, self.p@, self.v@));
        s
    }
}

/// One candle (open, high, low, close, volume at a timestamp), every field
/// already rendered as text.
pub struct StringGenericOHLC {
    pub ts: String,
    pub o: String,
    pub h: String,
    pub c: String,
    pub l: String,
    pub v: String,
}

/// The timestamp text without its last three bytes: a millisecond count
/// becomes a second count.
pub open spec fn seconds_text(ts: Seq<char>) -> Seq<char> {
    byte_slice(ts, 0, byte_len(ts) - 3)
}

/// When `StringGenericOHLC::to_json` can cut the timestamp: it has at least
/// three bytes and the cut falls on a character boundary.
pub open spec fn cuttable_timestamp(ts: Seq<char>) -> bool {
    byte_len(ts) >= 3 && on_boundary(ts, byte_len(ts) - 3)
}

/// The candle as JSON: the timestamp (cut to seconds) quoted, the other
/// fields spliced in verbatim.
pub open spec fn ohlc_json(
    ts: Seq<char>,
    o: Seq<char>,
    h: Seq<char>,
    l: Seq<char>,
    c: Seq<char>,
    v: Seq<char>,
) -> Seq<char> {
    "{\"ts\":\""@ + seconds_text(ts) + "\",\"o\":"@ + o + ",\"h\":"@ + h + ",\"l\":"@ + l
        + ",\"c\":"@ + c + ",\"v\":"@ + v + "}"@
}

/// `ts,o,h,l,c,v` followed by a newline.
pub open spec fn ohlc_line(
    ts: Seq<char>,
    o: Seq<char>,
    h: Seq<char>,
    l: Seq<char>,
    c: Seq<char>,
    v: Seq<char>,
) -> Seq<char> {
    ts + ","@ + o + ","@ + h + ","@ + l + ","@ + c + ","@ + v + "\n"@
}

impl StringGenericOHLC {
    pub open spec fn json_view(&self) -> Seq<char> {
        ohlc_json(self.ts@, self.o@, self.h@, self.l@, self.c@, self.v@)
    }

    /// The candle as JSON, with the timestamp cut from milliseconds to seconds.
    pub fn to_json(&self) -> (s: String)
        requires
            cuttable_timestamp(self.ts@),
        ensures
            s@ == self.json_view(),
    {
        let ts = self.ts.as_str();
        let len = ts.as_bytes().len();
        proof {
            vstd::utf8::encode_utf8_valid_utf8(self.ts@);
            vstd::utf8::is_char_boundary_start_end_of_seq(vstd::utf8::encode_utf8(self.ts@));
            assert(len == byte_len(self.ts@));
        }
        let n = len - 3;
        let t = byte_slice_string(ts, 0, n);
        let mut s = String::new();
        s.append("{\"ts\":\"");
        s.append(t.as_str());
        s.append("\",\"o\":");
        s.append(self.o.as_str());
        s.append(",\"h\":");
        s.append(self.h.as_str());
        s.append(",\"l\":");
        s.append(self.l.as_str());
        s.append(",\"c\":");
        s.append(self.c.as_str());
        s.append(",\"v\":");
        s.append(self.v.as_str());
        s.append("}");
        assert(s@ =~= self.json_view());
        s
    }

    /// The candle as one CSV line.
    pub fn to_string(&self) -> (s: String)
        ensures
            s@ == ohlc_line(self.ts@, self.o@, self.h@, self.l@, self.c@, self.v@),
    {
        let mut owned_str = String::new();
        owned_str.append(self.ts.as_str());
        owned_str.append(",");
        owned_str.append(self.o.as_str());
        owned_str.append(",");
        owned_str.append(self.h.as_str());
        owned_str.append(",");
        owned_str.append(self.l.as_str());
        owned_str.append(",");
        owned_str.append(self.c.as_str());
        owned_str.append(",");
        owned_str.append(self.v.as_str());
        owned_str.append("\n");
        assert(owned_str@ =~= ohlc_line(self.ts@, self.o@, self.h@, self.l@, self.c@, self.v@));
        owned_str
    }
}

} // verus!
