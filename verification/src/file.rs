//! Tabular data as the viewer holds it: one `Records` per sheet, one
//! `TableFile` per source file, loaded lazily by the surrounding program.
//! Also the sheet-splitting rule of the multi-sheet text format: a line
//! starting "#>" opens a new sheet and names it up to the first comma.
use vstd::prelude::*;
use vstd::string::{StrSliceExecFns, StringExecFns};

verus! {

/// One sheet of data: a header row and the data rows.
///
/// Every row must have exactly as many cells as there are headers;
/// rows that do not are filtered out before they reach this type.
pub struct Records {
    pub headers: Vec<String>,
    pub rows: Vec<Vec<String>>,
}

impl Records {
    /// Each row has exactly one cell per header.
    pub open spec fn wf(&self) -> bool {
        forall|i: int|
            0 <= i < self.rows@.len() ==> (#[trigger] self.rows@[i])@.len()
                == self.headers@.len()
    }
}

/// One source file: a display name and, once loaded, its named sheets.
pub struct TableFile {
    pub name: String,
    pub records: Option<Vec<(String, Records)>>,
}

impl TableFile {
    /// Every loaded sheet is well formed.
    pub open spec fn wf(&self) -> bool {
        match self.records {
            Some(rs) => forall|j: int| 0 <= j < rs@.len() ==> (#[trigger] rs@[j]).1.wf(),
            None => true,
        }
    }

    /// A file starts unloaded: just a display name.
    pub fn new(name: String) -> (r: TableFile)
        ensures
            r.name == name,
            r.records is None,
            r.wf(),
    {
        TableFile { name, records: None }
    }

    /// Number of sheets; zero while the file is not loaded.
    pub fn n_sheets(&self) -> (n: usize)
        ensures
            n == match self.records {
                Some(rs) => rs@.len(),
                None => 0nat,
            },
    {
        match &self.records {
            Some(rs) => rs.len(),
            None => 0,
        }
    }

    /// Install the sheets that the loader produced.
    pub fn install_records(&mut self, recs: Vec<(String, Records)>)
        requires
            forall|j: int| 0 <= j < recs@.len() ==> (#[trigger] recs@[j]).1.wf(),
        ensures
            final(self).name == old(self).name,
            final(self).records == Some(recs),
            final(self).wf(),
    {
        self.records = Some(recs);
    }
}

/// A line that opens a new sheet: it starts with "#>".
pub open spec fn is_marker(line: Seq<char>) -> bool {
    line.len() >= 2 && line[0] == '#' && line[1] == '>'
}

/// The characters up to (not including) the first comma.
pub open spec fn name_prefix(s: Seq<char>) -> Seq<char>
    decreases s.len(),
{
    if s.len() == 0 {
        Seq::empty()
    } else if s[0] == ',' {
        Seq::empty()
    } else {
        seq![s[0]] + name_prefix(s.drop_first())
    }
}

/// The sheet name a marker line carries: what follows "#>", up to the
/// first comma.
pub open spec fn marker_name(line: Seq<char>) -> Seq<char> {
    name_prefix(line.skip(2))
}

/// One line of the split: a marker line closes the sheet gathered so far
/// (dropping it when it has no lines) and opens one with the marker's
/// name; any other line joins the sheet being gathered.
pub open spec fn split_step(
    name: Seq<char>,
    buf: Seq<Seq<char>>,
    acc: Seq<(Seq<char>, Seq<Seq<char>>)>,
    line: Seq<char>,
) -> (Seq<char>, Seq<Seq<char>>, Seq<(Seq<char>, Seq<Seq<char>>)>) {
    if is_marker(line) {
        if buf.len() > 0 {
            (marker_name(line), Seq::empty(), acc.push((name, buf)))
        } else {
            (marker_name(line), buf, acc)
        }
    } else {
        (name, buf.push(line), acc)
    }
}

/// The split state after the first `k` lines, starting from an unnamed
/// empty sheet.
pub open spec fn split_state(lines: Seq<Seq<char>>, k: int) -> (
    Seq<char>,
    Seq<Seq<char>>,
    Seq<(Seq<char>, Seq<Seq<char>>)>,
)
    decreases k,
{
    if k <= 0 {
        (Seq::<char>::empty(), Seq::<Seq<char>>::empty(), Seq::<(
            Seq<char>,
            Seq<Seq<char>>,
        )>::empty())
    } else {
        let st = split_state(lines, k - 1);
        split_step(st.0, st.1, st.2, lines[k - 1])
    }
}

/// The named sheets the lines split into: the fold over every line, with
/// the sheet still being gathered closed at the end (unless empty).
pub open spec fn split_spec(lines: Seq<Seq<char>>) -> Seq<(Seq<char>, Seq<Seq<char>>)> {
    let st = split_state(lines, lines.len() as int);
    if st.1.len() > 0 {
        st.2.push((st.0, st.1))
    } else {
        st.2
    }
}

/// A comma-free prefix ending at the first comma (or at the end) is the
/// name prefix.
proof fn lemma_name_prefix(s: Seq<char>, j: int)
    requires
        0 <= j <= s.len(),
        forall|t: int| 0 <= t < j ==> s[t] != ',',
        j == s.len() || s[j] == ',',
    ensures
        name_prefix(s) == s.take(j),
    decreases s.len(),
{
    if s.len() == 0 {
        assert(name_prefix(s) =~= s.take(j));
    } else if s[0] == ',' {
        assert(j == 0);
        assert(name_prefix(s) =~= s.take(j));
    } else {
        assert(j >= 1);
        lemma_name_prefix(s.drop_first(), j - 1);
        assert(name_prefix(s) =~= s.take(j));
    }
}

/// Read the sheet name out of a marker line.
fn read_marker_name(line: &String) -> (r: String)
    requires
        is_marker(line@),
    ensures
        r@ == marker_name(line@),
{
    let s = line.as_str();
    let len = s.unicode_len();
    let mut j: usize = 2;
    while j < len && s.get_char(j) != ','
        invariant
            2 <= j <= len,
            len == line@.len(),
            s@ == line@,
            forall|t: int| 2 <= t < j ==> line@[t] != ',',
        decreases len - j,
    {
        j += 1;
    }
    let sub = s.substring_char(2, j);
    proof {
        assert(line@.subrange(2, j as int) =~= line@.skip(2).take(j - 2));
        lemma_name_prefix(line@.skip(2), j - 2);
    }
    String::from_str(sub)
}

/// Whether this line opens a new sheet.
fn line_is_marker(line: &String) -> (r: bool)
    ensures
        r == is_marker(line@),
{
    let s = line.as_str();
    let len = s.unicode_len();
    len >= 2 && s.get_char(0) == '#' && s.get_char(1) == '>'
}

/// Split the lines of a multi-sheet file into its named sheets, as
/// `split_spec` lays down.
pub fn split_sheets(lines: &Vec<String>) -> (r: Vec<(String, Vec<String>)>)
    ensures
        r.deep_view() == split_spec(lines.deep_view()),
{
    let n = lines.len();
    let mut name = String::new();
    let mut buf: Vec<String> = Vec::new();
    let mut acc: Vec<(String, Vec<String>)> = Vec::new();
    proof {
        assert(lines.deep_view().len() == n);
        assert(name@ =~= split_state(lines.deep_view(), 0).0);
        assert(buf.deep_view() =~= split_state(lines.deep_view(), 0).1);
        assert(acc.deep_view() =~= split_state(lines.deep_view(), 0).2);
    }
    let mut k: usize = 0;
    while k < n
        invariant
            k <= n,
            n == lines@.len(),
            lines.deep_view().len() == n,
            forall|t: int| 0 <= t < n ==> lines.deep_view()[t] == (#[trigger] lines@[t])@,
            name@ == split_state(lines.deep_view(), k as int).0,
            buf.deep_view() == split_state(lines.deep_view(), k as int).1,
            acc.deep_view() == split_state(lines.deep_view(), k as int).2,
        decreases n - k,
    {
        let line = &lines[k];
        let ghost old_name = name@;
        let ghost old_buf = buf.deep_view();
        let ghost old_acc = acc.deep_view();
        if line_is_marker(line) {
            let new_name = read_marker_name(line);
            if buf.len() > 0 {
                let done = (name, buf);
                name = new_name;
                buf = Vec::new();
                acc.push(done);
                proof {
                    assert(acc.deep_view() =~= old_acc.push((old_name, old_buf)));
                    assert(buf.deep_view() =~= Seq::<Seq<char>>::empty());
                }
            } else {
                name = new_name;
            }
        } else {
            buf.push(line.clone());
            proof {
                assert(buf.deep_view() =~= old_buf.push(line@));
            }
        }
        k += 1;
    }
    if buf.len() > 0 {
        let ghost old_acc = acc.deep_view();
        let ghost old_name = name@;
        let ghost old_buf = buf.deep_view();
        acc.push((name, buf));
        proof {
            assert(acc.deep_view() =~= old_acc.push((old_name, old_buf)));
        }
    }
    acc
}

} // verus!
