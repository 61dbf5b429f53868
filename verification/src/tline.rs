//! Styled lines: a line is a sequence of strings, each with the control
//! sequence (CSI) setting its style.
use vstd::prelude::*;
use crate::text::{all_ws, all_ws_exec, to_chars};
use crate::tty::{CSI_BOLD_GREEN, CSI_BOLD_ORANGE, CSI_FAIL_BADGE, CSI_ITALIC, CSI_PASS_BADGE};

verus! {

/// What a styled string stands for: its style and its characters.
pub struct TStringView {
    pub csi: Seq<char>,
    pub raw: Seq<char>,
}

/// A string with its style
#[derive(Debug)]
pub struct TString {
    pub csi: String,
    pub raw: String,
}

impl View for TString {
    type V = TStringView;

    open spec fn view(&self) -> TStringView {
        TStringView { csi: self.csi@, raw: self.raw@ }
    }
}

/// The view of a sequence of styled strings.
pub open spec fn tstrings_view(s: Seq<TString>) -> Seq<TStringView> {
    s.map_values(|t: TString| t@)
}

pub open spec fn tstring_view(csi: Seq<char>, raw: Seq<char>) -> TStringView {
    TStringView { csi, raw }
}

/// A styled string whose characters are all white space.
pub open spec fn is_blank_tstring(t: TStringView) -> bool {
    all_ws(t.raw)
}

/// A line whose strings are all blank (true of a line without string).
pub open spec fn is_blank_line(l: Seq<TStringView>) -> bool {
    forall|i: int| 0 <= i < l.len() ==> #[trigger] is_blank_tstring(l[i])
}

/// The characters of a line, without style.
pub open spec fn raw_of(l: Seq<TStringView>) -> Seq<char>
    decreases l.len(),
{
    if l.len() == 0 {
        Seq::empty()
    } else {
        raw_of(l.drop_last()) + l.last().raw
    }
}

/// The characters of a line made of one string are those of the string
pub proof fn lemma_raw_of_single(t: TStringView)
    ensures
        raw_of(seq![t]) == t.raw,
{
    let l = seq![t];
    assert(l.drop_last() =~= Seq::<TStringView>::empty());
    assert(raw_of(l.drop_last()) == Seq::<char>::empty());
    assert(l.last() == t);
    assert(raw_of(l) == raw_of(l.drop_last()) + t.raw);
    assert(Seq::<char>::empty() + t.raw =~= t.raw);
}

/// The text of a line made of one unstyled string.
pub open spec fn unstyled_text(l: Seq<TStringView>) -> Option<Seq<char>> {
    if l.len() == 1 && l[0].csi.len() == 0 {
        Some(l[0].raw)
    } else {
        None
    }
}

impl Clone for TString {
    fn clone(&self) -> (r: Self)
        ensures
            r == *self,
    {
        TString { csi: self.csi.clone(), raw: self.raw.clone() }
    }
}

impl TString {
    pub fn new(csi: &str, raw: &str) -> (r: Self)
        ensures
            r@ == tstring_view(csi@, raw@),
    {
        TString { csi: String::from_str(csi), raw: String::from_str(raw) }
    }

    /// Whether all the characters of the string are white space
    pub fn is_blank(&self) -> (r: bool)
        ensures
            r == is_blank_tstring(self@),
    {
        let raw = to_chars(self.raw.as_str());
        assert(raw@.subrange(0, raw@.len() as int) =~= raw@);
        all_ws_exec(raw.as_slice(), 0, raw.len())
    }

    /// Whether the string has a style
    pub fn is_styled(&self) -> (r: bool)
        ensures
            r == (self.csi@.len() > 0),
    {
        self.csi.as_str().unicode_len() > 0
    }

    /// Whether the string has no style
    pub fn is_unstyled(&self) -> (r: bool)
        ensures
            r == (self.csi@.len() == 0),
    {
        self.csi.as_str().unicode_len() == 0
    }
}

/// A line, made of styled strings
#[derive(Debug)]
pub struct TLine {
    pub strings: Vec<TString>,
}

impl View for TLine {
    type V = Seq<TStringView>;

    open spec fn view(&self) -> Seq<TStringView> {
        tstrings_view(self.strings@)
    }
}

/// A copy of the styled strings.
pub fn clone_tstrings(s: &[TString]) -> (r: Vec<TString>)
    ensures
        tstrings_view(r@) == tstrings_view(s@),
{
    let mut r: Vec<TString> = Vec::new();
    let mut i: usize = 0;
    while i < s.len()
        invariant
            i <= s@.len(),
            r@ == s@.take(i as int),
        decreases s@.len() - i,
    {
        r.push(s[i].clone());
        assert(s@.take(i + 1) =~= s@.take(i as int).push(s@[i as int]));
        i += 1;
    }
    assert(s@.take(s@.len() as int) =~= s@);
    r
}

/// A copy of the styled strings from `from` on.
pub fn clone_tstrings_from(s: &[TString], from: usize) -> (r: Vec<TString>)
    requires
        from <= s@.len(),
    ensures
        tstrings_view(r@) == tstrings_view(s@).skip(from as int),
{
    let mut r: Vec<TString> = Vec::new();
    let mut i: usize = from;
    while i < s.len()
        invariant
            from <= i <= s@.len(),
            r@ == s@.subrange(from as int, i as int),
        decreases s@.len() - i,
    {
        r.push(s[i].clone());
        assert(s@.subrange(from as int, i + 1) =~= s@.subrange(from as int, i as int).push(
            s@[i as int],
        ));
        i += 1;
    }
    assert(tstrings_view(r@) =~= tstrings_view(s@).skip(from as int));
    r
}

impl Clone for TLine {
    fn clone(&self) -> (r: Self)
        ensures
            r@ == self@,
    {
        TLine { strings: clone_tstrings(self.strings.as_slice()) }
    }
}

/// The line of a failed test title
pub open spec fn failed_line(key: Seq<char>) -> Seq<TStringView> {
    seq![
        tstring_view(CSI_FAIL_BADGE@, " FAIL "@),
        tstring_view(Seq::empty(), " "@),
        tstring_view(CSI_BOLD_ORANGE@, key),
    ]
}

/// The line of a passed test title
pub open spec fn passed_line(key: Seq<char>) -> Seq<TStringView> {
    seq![
        tstring_view(CSI_PASS_BADGE@, " PASS "@),
        tstring_view(Seq::empty(), " "@),
        tstring_view(CSI_BOLD_GREEN@, key),
    ]
}

impl TLine {
    pub fn new() -> (r: Self)
        ensures
            r@ == Seq::<TStringView>::empty(),
            r.strings@ == Seq::<TString>::empty(),
    {
        TLine { strings: Vec::new() }
    }

    /// A line made of one unstyled string
    pub fn from_raw(raw: String) -> (r: Self)
        ensures
            r@ == seq![tstring_view(Seq::empty(), raw@)],
    {
        let mut strings = Vec::new();
        strings.push(TString { csi: String::new(), raw });
        let r = TLine { strings };
        assert(r@ =~= seq![tstring_view(Seq::empty(), raw@)]);
        r
    }

    /// A line made of one italic string
    pub fn italic(text: String) -> (r: Self)
        ensures
            r@ == seq![tstring_view(CSI_ITALIC@, text@)],
    {
        let mut strings = Vec::new();
        strings.push(TString { csi: String::from_str(CSI_ITALIC), raw: text });
        let r = TLine { strings };
        assert(r@ =~= seq![tstring_view(CSI_ITALIC@, text@)]);
        r
    }

    /// The title of a failed test
    pub fn failed(key: &str) -> (r: Self)
        ensures
            r@ == failed_line(key@),
    {
        let mut strings = Vec::new();
        strings.push(TString::new(CSI_FAIL_BADGE, " FAIL "));
        strings.push(TString::new("", " "));
        strings.push(TString::new(CSI_BOLD_ORANGE, key));
        let r = TLine { strings };
        proof {
            reveal_strlit("");
            assert(""@ =~= Seq::<char>::empty());
        }
        assert(r@ =~= failed_line(key@));
        r
    }

    /// The title of a passed test
    pub fn passed(key: &str) -> (r: Self)
        ensures
            r@ == passed_line(key@),
    {
        let mut strings = Vec::new();
        strings.push(TString::new(CSI_PASS_BADGE, " PASS "));
        strings.push(TString::new("", " "));
        strings.push(TString::new(CSI_BOLD_GREEN, key));
        let r = TLine { strings };
        proof {
            reveal_strlit("");
            assert(""@ =~= Seq::<char>::empty());
        }
        assert(r@ =~= passed_line(key@));
        r
    }

    /// Whether all the strings of the line are blank
    pub fn is_blank(&self) -> (r: bool)
        ensures
            r == is_blank_line(self@),
    {
        let mut i: usize = 0;
        while i < self.strings.len()
            invariant
                i <= self.strings@.len(),
                forall|j: int| 0 <= j < i ==> #[trigger] is_blank_tstring(self@[j]),
            decreases self.strings@.len() - i,
        {
            if !self.strings[i].is_blank() {
                assert(self@[i as int] == self.strings@[i as int]@);
                return false;
            }
            i += 1;
        }
        true
    }

    /// The text of the line when it's made of one unstyled string
    pub fn if_unstyled(&self) -> (r: Option<&str>)
        ensures
            match r {
                Some(s) => unstyled_text(self@) == Some(s@),
                None => unstyled_text(self@) is None,
            },
    {
        if self.strings.len() == 1 && self.strings[0].is_unstyled() {
            Some(self.strings[0].raw.as_str())
        } else {
            None
        }
    }

    /// The characters of the line, without style
    pub fn to_raw(&self) -> (r: String)
        ensures
            r@ == raw_of(self@),
    {
        let mut r = String::new();
        let mut i: usize = 0;
        while i < self.strings.len()
            invariant
                i <= self.strings@.len(),
                r@ == raw_of(self@.take(i as int)),
            decreases self.strings@.len() - i,
        {
            r.append(self.strings[i].raw.as_str());
            assert(self@.take(i + 1).drop_last() =~= self@.take(i as int));
            i += 1;
        }
        assert(self@.take(self@.len() as int) =~= self@);
        r
    }
}

} // verus!
