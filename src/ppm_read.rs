use vstd::prelude::*;

use vstd::std_specs::iter::IteratorSpec;

use crate::netpbm::{decimal, digits};
use crate::ppm::{Img, ImgView};

verus! {

broadcast use {vstd::string::next_postcondition, vstd::string::axiom_spec_iter};

// ---------------------------------------------------------------------------
// Comments

/// `s` with comments removed, where `in_comment` says whether `s` starts
/// inside one: a comment runs from `#` up to, not including, the next newline.
pub open spec fn strip_from(s: Seq<char>, in_comment: bool) -> Seq<char>
    decreases s.len(),
{
    if s.len() == 0 {
        s
    } else if in_comment {
        if s[0] == '\n' {
            seq![s[0]] + strip_from(s.drop_first(), false)
        } else {
            strip_from(s.drop_first(), true)
        }
    } else if s[0] == '#' {
        strip_from(s.drop_first(), true)
    } else {
        seq![s[0]] + strip_from(s.drop_first(), false)
    }
}

pub open spec fn without_comments(s: Seq<char>) -> Seq<char> {
    strip_from(s, false)
}

/// Relies on regex's `Regex::new` and `Regex::replace_all` with the pattern
/// `#.*` and an empty replacement: each match starts at a `#` and, as `.`
/// matches any character but `\n`, runs greedily to the end of its line.
#[verifier::external_body]
fn strip_comments(text: &str) -> (r: String)
    ensures
        r@ == without_comments(text@),
{
    regex::Regex::new(r"#.*").unwrap().replace_all(text, "").into_owned()
}

// ---------------------------------------------------------------------------
// Tokens and numbers

/// Characters with the Unicode `White_Space` property.
pub open spec fn is_white(c: char) -> bool {
    let u = c as u32;
    (9 <= u <= 13) || u == 32 || u == 0x85 || u == 0xA0 || u == 0x1680 || (0x2000 <= u <= 0x200A)
        || u == 0x2028 || u == 0x2029 || u == 0x202F || u == 0x205F || u == 0x3000
}

fn white(c: char) -> (r: bool)
    ensures
        r == is_white(c),
{
    let u = c as u32;
    (9 <= u && u <= 13) || u == 32 || u == 0x85 || u == 0xA0 || u == 0x1680 || (0x2000 <= u && u
        <= 0x200A) || u == 0x2028 || u == 0x2029 || u == 0x202F || u == 0x205F || u == 0x3000
}

pub open spec fn is_digit(c: char) -> bool {
    48 <= (c as u32) <= 57
}

pub open spec fn all_digits(s: Seq<char>) -> bool {
    forall|i: int| 0 <= i < s.len() ==> is_digit(s[i])
}

/// The number that a string of ASCII digits spells in decimal.
pub open spec fn digits_value(s: Seq<char>) -> int
    decreases s.len(),
{
    if s.len() == 0 {
        0
    } else {
        digits_value(s.drop_last()) * 10 + ((s.last() as u32) - 48)
    }
}

/// A decimal integer as `i64::from_str` reads it: an optional `+` or `-`,
/// then one or more ASCII digits, with a value that fits in an `i64`.
pub open spec fn parse_i64(s: Seq<char>) -> Option<i64> {
    let signed = s.len() > 0 && (s[0] == '-' || s[0] == '+');
    let body = if signed {
        s.drop_first()
    } else {
        s
    };
    let v = if s.len() > 0 && s[0] == '-' {
        -digits_value(body)
    } else {
        digits_value(body)
    };
    if body.len() == 0 || !all_digits(body) {
        None
    } else if i64::MIN <= v <= i64::MAX {
        Some(v as i64)
    } else {
        None
    }
}

/// The characters of ASCII bytes.
pub open spec fn ascii(bytes: Seq<u8>) -> Seq<char> {
    bytes.map_values(|b: u8| b as char)
}

proof fn lemma_digits_read_back(m: nat)
    ensures
        digits(m).len() > 0,
        all_digits(ascii(digits(m))),
        digits_value(ascii(digits(m))) == m,
    decreases m,
{
    let d = ascii(digits(m));
    if m < 10 {
        assert(d =~= seq![((48 + m) as u8) as char]);
        assert(d.drop_last() =~= Seq::<char>::empty());
        assert((d.last() as u32) == 48 + m);
        assert(digits_value(d.drop_last()) == 0);
        assert(digits_value(d) == digits_value(d.drop_last()) * 10 + ((d.last() as u32) - 48));
    } else {
        lemma_digits_read_back(m / 10);
        let hi = ascii(digits(m / 10));
        assert(d.drop_last() =~= hi);
        assert(d.last() == ((48 + m % 10) as u8) as char);
        assert((d.last() as u32) == 48 + m % 10);
        assert(m == (m / 10) * 10 + m % 10);
        assert(digits_value(d) == digits_value(d.drop_last()) * 10 + ((d.last() as u32) - 48));
        assert forall|i: int| 0 <= i < d.len() implies is_digit(d[i]) by {
            if i < hi.len() {
                assert(d[i] == hi[i]);
            }
        }
    }
}

/// Every `i64` written in decimal reads back as itself.
pub proof fn lemma_decimal_reads_back(n: i64)
    ensures
        parse_i64(ascii(decimal(n as int))) == Some(n),
{
    if n < 0 {
        let m = (-(n as int)) as nat;
        lemma_digits_read_back(m);
        let s = ascii(decimal(n as int));
        assert(s.drop_first() =~= ascii(digits(m)));
        assert(s[0] == '-');
    } else {
        lemma_digits_read_back(n as nat);
        let s = ascii(decimal(n as int));
        assert(s[0] != '-' && s[0] != '+');
    }
}

/// The value of a token, as `parse_i64` reads it.
pub fn parse_token(tok: &Vec<char>) -> (r: Option<i64>)
    ensures
        r == parse_i64(tok@),
{
    let n = tok.len();
    if n == 0 {
        return None;
    }
    let neg = tok[0] == '-';
    let start: usize = if tok[0] == '-' || tok[0] == '+' {
        1
    } else {
        0
    };
    let ghost body = if start == 1 {
        tok@.drop_first()
    } else {
        tok@
    };
    assert(body =~= tok@.subrange(start as int, n as int));
    if start >= n {
        return None;
    }
    let limit: u128 = 9223372036854775808;
    let mut acc: u128 = 0;
    let mut big = false;
    let mut i: usize = start;
    while i < n
        invariant
            start <= i <= n,
            n == tok@.len(),
            limit == 9223372036854775808,
            n > 0,
            start == 1 <==> (tok@[0] == '-' || tok@[0] == '+'),
            start <= 1,
            neg == (tok@[0] == '-'),
            body == tok@.subrange(start as int, n as int),
            forall|j: int| start <= j < i ==> is_digit(tok@[j]),
            !big ==> acc as int == digits_value(body.subrange(0, i - start)) && acc <= limit,
            big ==> digits_value(body.subrange(0, i - start)) > limit,
        decreases n - i,
    {
        let c = tok[i];
        let u = c as u32;
        if !(48 <= u && u <= 57) {
            proof {
                let sb = if tok@.len() > 0 && (tok@[0] == '-' || tok@[0] == '+') {
                    tok@.drop_first()
                } else {
                    tok@
                };
                assert(sb == body);
                assert(sb[i - start] == tok@[i as int]);
                assert(!is_digit(sb[i - start]));
                assert(!all_digits(sb));
            }
            return None;
        }
        let d = (u - 48) as u128;
        let ghost pre = body.subrange(0, i - start);
        assert(body.subrange(0, i + 1 - start).drop_last() =~= pre);
        if !big {
            let nv = acc * 10 + d;
            if nv > limit {
                big = true;
            } else {
                acc = nv;
            }
        }
        i = i + 1;
    }
    assert(body.subrange(0, n - start) =~= body);
    assert(all_digits(body)) by {
        assert forall|j: int| 0 <= j < body.len() implies is_digit(body[j]) by {
            assert(body[j] == tok@[j + start]);
        }
    }
    if big {
        None
    } else if neg {
        Some((0i128 - acc as i128) as i64)
    } else if acc <= 9223372036854775807 {
        Some(acc as i64)
    } else {
        None
    }
}

// ---------------------------------------------------------------------------
// The reader

/// What a plain PPM reader waits for next.
#[derive(Clone, Copy, Debug, PartialEq, Eq, Structural)]
pub enum Phase {
    Magic,
    Width,
    Height,
    Maxval,
    Red,
    Green,
    Blue,
}

/// Why a plain PPM text could not be read.
#[derive(Clone, Copy, Debug, PartialEq, Eq, Structural)]
pub enum PpmError {
    /// A size or a pixel value is not a decimal integer that fits in an `i64`.
    BadNumber,
    /// The width or height is negative, or the grid does not fit in memory.
    BadSize,
    /// The text ends before the magic number `P3`, the width, the height and
    /// the maximum value have all been read.
    NoHeader,
    /// The pixel values stop before the last pixel, or inside a pixel.
    Truncated,
}

pub struct ReaderView {
    pub phase: Phase,
    pub width: int,
    pub height: int,
    pub x: int,
    pub y: int,
    /// The header is complete and the three channels exist.
    pub started: bool,
    pub red: ImgView,
    pub green: ImgView,
    pub blue: ImgView,
    pub error: Option<PpmError>,
}

pub open spec fn reader_start() -> ReaderView {
    ReaderView {
        phase: Phase::Magic,
        width: 0,
        height: 0,
        x: 0,
        y: 0,
        started: false,
        red: ImgView::fresh(0, 0),
        green: ImgView::fresh(0, 0),
        blue: ImgView::fresh(0, 0),
        error: None,
    }
}

pub open spec fn magic_token() -> Seq<char> {
    seq!['P', '3']
}

/// The position after one more pixel: the next column, or the start of the
/// next row after the last column.
pub open spec fn advance(st: ReaderView) -> ReaderView {
    if st.x + 1 >= st.width {
        ReaderView {
            x: 0,
            y: if st.y < i64::MAX {
                st.y + 1
            } else {
                st.y
            },
            ..st
        }
    } else {
        ReaderView { x: st.x + 1, ..st }
    }
}

/// The reader after token `tok`. Tokens before the magic number `P3` are
/// skipped; then come the width, the height and the maximum value (which is
/// not used), and then red, green and blue values for each pixel in turn,
/// row by row. After an error every token is ignored.
pub open spec fn step(st: ReaderView, tok: Seq<char>) -> ReaderView {
    if st.error is Some {
        st
    } else {
        match st.phase {
            Phase::Magic => if tok == magic_token() {
                ReaderView { phase: Phase::Width, ..st }
            } else {
                st
            },
            Phase::Width => match parse_i64(tok) {
                Some(v) => ReaderView { width: v as int, phase: Phase::Height, ..st },
                None => ReaderView { error: Some(PpmError::BadNumber), ..st },
            },
            Phase::Height => match parse_i64(tok) {
                Some(v) => ReaderView { height: v as int, phase: Phase::Maxval, ..st },
                None => ReaderView { error: Some(PpmError::BadNumber), ..st },
            },
            Phase::Maxval => if 0 <= st.width && 0 <= st.height && st.height * st.width
                <= usize::MAX {
                ReaderView {
                    phase: Phase::Red,
                    started: true,
                    red: ImgView::fresh(st.height, st.width),
                    green: ImgView::fresh(st.height, st.width),
                    blue: ImgView::fresh(st.height, st.width),
                    ..st
                }
            } else {
                ReaderView { error: Some(PpmError::BadSize), ..st }
            },
            Phase::Red => match parse_i64(tok) {
                Some(v) => ReaderView {
                    phase: Phase::Green,
                    red: st.red.set(st.x, st.y, v),
                    ..st
                },
                None => ReaderView { error: Some(PpmError::BadNumber), ..st },
            },
            Phase::Green => match parse_i64(tok) {
                Some(v) => ReaderView {
                    phase: Phase::Blue,
                    green: st.green.set(st.x, st.y, v),
                    ..st
                },
                None => ReaderView { error: Some(PpmError::BadNumber), ..st },
            },
            Phase::Blue => match parse_i64(tok) {
                Some(v) => advance(
                    ReaderView { phase: Phase::Red, blue: st.blue.set(st.x, st.y, v), ..st },
                ),
                None => ReaderView { error: Some(PpmError::BadNumber), ..st },
            },
        }
    }
}

/// The reader and the token under way after the characters `s`: a token is
/// a maximal run of characters that are not white space.
pub open spec fn scan(s: Seq<char>) -> (ReaderView, Seq<char>)
    decreases s.len(),
{
    if s.len() == 0 {
        (reader_start(), Seq::empty())
    } else {
        let (st, cur) = scan(s.drop_last());
        let c = s.last();
        if is_white(c) {
            if cur.len() > 0 {
                (step(st, cur), Seq::empty())
            } else {
                (st, cur)
            }
        } else {
            (st, cur.push(c))
        }
    }
}

/// The reader after all of `s`, its last token included.
pub open spec fn read_all(s: Seq<char>) -> ReaderView {
    let (st, cur) = scan(s);
    if cur.len() > 0 {
        step(st, cur)
    } else {
        st
    }
}

/// Every pixel has its three values: the reader waits for a red value and
/// has passed the last row (or the grid is empty).
pub open spec fn pixels_complete(st: ReaderView) -> bool {
    st.phase is Red && (st.width == 0 || st.height == 0 || st.y >= st.height)
}

/// What reading the plain PPM text `s` gives: the red, green and blue
/// channels, or the first error. Values after the last pixel are ignored.
pub open spec fn ppm_result(s: Seq<char>) -> Result<Seq<ImgView>, PpmError> {
    let st = read_all(without_comments(s));
    match st.error {
        Some(e) => Err(e),
        None => if !st.started {
            Err(PpmError::NoHeader)
        } else if !pixels_complete(st) {
            Err(PpmError::Truncated)
        } else {
            Ok(seq![st.red, st.green, st.blue])
        },
    }
}

struct Reader {
    phase: Phase,
    width: i64,
    height: i64,
    x: i64,
    y: i64,
    started: bool,
    red: Img,
    green: Img,
    blue: Img,
    error: Option<PpmError>,
}

impl View for Reader {
    type V = ReaderView;

    closed spec fn view(&self) -> ReaderView {
        ReaderView {
            phase: self.phase,
            width: self.width as int,
            height: self.height as int,
            x: self.x as int,
            y: self.y as int,
            started: self.started,
            red: self.red@,
            green: self.green@,
            blue: self.blue@,
            error: self.error,
        }
    }
}

impl Reader {
    spec fn inv(&self) -> bool {
        &&& self.red.wf()
        &&& self.green.wf()
        &&& self.blue.wf()
        &&& 0 <= self.x
        &&& 0 <= self.y
        &&& (self.x == 0 || self.x < self.width)
        &&& !self.started ==> self.x == 0
        &&& (self.phase is Magic || self.phase is Width || self.phase is Height
            || self.phase is Maxval) ==> !self.started
        &&& (self.phase is Red || self.phase is Green || self.phase is Blue) ==> self.started
    }

    fn new() -> (r: Reader)
        ensures
            r@ == reader_start(),
            r.inv(),
    {
        Reader {
            phase: Phase::Magic,
            width: 0,
            height: 0,
            x: 0,
            y: 0,
            started: false,
            red: Img::new(0, 0),
            green: Img::new(0, 0),
            blue: Img::new(0, 0),
            error: None,
        }
    }

    fn advance(&mut self)
        requires
            old(self).inv(),
            old(self).started,
        ensures
            final(self).inv(),
            final(self)@ == advance(old(self)@),
    {
        if self.x + 1 >= self.width {
            self.x = 0;
            if self.y < i64::MAX {
                self.y = self.y + 1;
            }
        } else {
            self.x = self.x + 1;
        }
    }

    fn step(&mut self, tok: &Vec<char>)
        requires
            old(self).inv(),
        ensures
            final(self).inv(),
            final(self)@ == step(old(self)@, tok@),
    {
        if self.error.is_some() {
            return;
        }
        match self.phase {
            Phase::Magic => {
                if tok.len() == 2 && tok[0] == 'P' && tok[1] == '3' {
                    assert(tok@ =~= magic_token());
                    self.phase = Phase::Width;
                } else {
                    assert(tok@ != magic_token()) by {
                        if tok@ == magic_token() {
                            assert(tok@[0] == 'P' && tok@[1] == '3');
                        }
                    }
                }
            },
            Phase::Width => match parse_token(tok) {
                Some(v) => {
                    self.width = v;
                    self.phase = Phase::Height;
                },
                None => {
                    self.error = Some(PpmError::BadNumber);
                },
            },
            Phase::Height => match parse_token(tok) {
                Some(v) => {
                    self.height = v;
                    self.phase = Phase::Maxval;
                },
                None => {
                    self.error = Some(PpmError::BadNumber);
                },
            },
            Phase::Maxval => {
                let w = self.width;
                let h = self.height;
                let fits = if w < 0 || h < 0 {
                    false
                } else if w == 0 || h == 0 {
                    assert(h * w == 0) by (nonlinear_arith)
                        requires
                            h == 0 || w == 0,
                    ;
                    true
                } else {
                    assert((h as u128) * (w as u128) <= 0x4000_0000_0000_0000_0000_0000_0000_0000)
                        by (nonlinear_arith)
                        requires
                            0 < h <= 0x8000_0000_0000_0000,
                            0 < w <= 0x8000_0000_0000_0000,
                    ;
                    (h as u128) * (w as u128) <= usize::MAX as u128
                };
                if fits {
                    self.red = Img::new(h, w);
                    self.green = Img::new(h, w);
                    self.blue = Img::new(h, w);
                    self.started = true;
                    self.phase = Phase::Red;
                } else {
                    self.error = Some(PpmError::BadSize);
                }
            },
            Phase::Red => match parse_token(tok) {
                Some(v) => {
                    self.red.set_px(self.x, self.y, v);
                    self.phase = Phase::Green;
                },
                None => {
                    self.error = Some(PpmError::BadNumber);
                },
            },
            Phase::Green => match parse_token(tok) {
                Some(v) => {
                    self.green.set_px(self.x, self.y, v);
                    self.phase = Phase::Blue;
                },
                None => {
                    self.error = Some(PpmError::BadNumber);
                },
            },
            Phase::Blue => match parse_token(tok) {
                Some(v) => {
                    self.blue.set_px(self.x, self.y, v);
                    self.phase = Phase::Red;
                    self.advance();
                },
                None => {
                    self.error = Some(PpmError::BadNumber);
                },
            },
        }
    }
}

/// Reads a plain (`P3`) PPM text into its red, green and blue channels.
/// Comments are dropped first. A text whose header or pixel values are
/// missing is an error.
pub fn read_ppm(text: &str) -> (r: Result<Vec<Img>, PpmError>)
    ensures
        match (r, ppm_result(text@)) {
            (Ok(imgs), Ok(views)) => imgs@.len() == views.len() && forall|i: int|
                0 <= i < views.len() ==> #[trigger] imgs@[i]@ == views[i] && imgs@[i].wf(),
            (Err(e), Err(f)) => e == f,
            _ => false,
        },
{
    let stripped = strip_comments(text);
    let ghost all = stripped@;
    let mut reader = Reader::new();
    let mut cur: Vec<char> = Vec::new();
    let mut it = stripped.as_str().chars();
    let ghost mut done: Seq<char> = Seq::empty();
    loop
        invariant
            reader.inv(),
            done + it.remaining() == all,
            (reader@, cur@) == scan(done),
            it.obeys_prophetic_iter_laws(),
            it.decrease() is Some,
        ensures
            done == all,
            reader.inv(),
            (reader@, cur@) == scan(done),
        decreases it.decrease()->0,
    {
        let next = it.next();
        match next {
            Some(c) => {
                proof {
                    assert(done.push(c).drop_last() =~= done);
                    assert(done.push(c) + it.remaining() =~= all);
                }
                if white(c) {
                    if cur.len() > 0 {
                        reader.step(&cur);
                        cur = Vec::new();
                    }
                } else {
                    cur.push(c);
                }
                proof {
                    done = done.push(c);
                }
            },
            None => {
                assert(done =~= all);
                break;
            },
        }
    }
    if cur.len() > 0 {
        reader.step(&cur);
    }
    match reader.error {
        Some(e) => Err(e),
        None => {
            if !reader.started {
                Err(PpmError::NoHeader)
            } else if !(reader.phase == Phase::Red && (reader.width == 0 || reader.height == 0
                || reader.y >= reader.height)) {
                Err(PpmError::Truncated)
            } else {
                let mut imgs: Vec<Img> = Vec::new();
                imgs.push(reader.red);
                imgs.push(reader.green);
                imgs.push(reader.blue);
                Ok(imgs)
            }
        },
    }
}

} // verus!
