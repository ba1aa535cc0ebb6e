//! Checksum manifests: one line per published image, the digest, white
//! space, and the file name.
use crate::error::Error;
use crate::text::{
    chars_of, find_char, find_whitespace, find_whitespace_char, is_whitespace, lemma_find_skip,
    lemma_find_whitespace_bounds, nth_token, opt_text, slice_of, spells, split, string_of, token,
};
use vstd::prelude::*;

verus! {

/// The desktop edition that selects one of the images of a release.
#[derive(Debug, Clone, Copy, PartialEq, Eq, Hash, Structural)]
pub enum Edition {
    Cinnamon,
    Mate,
    Xfce,
}

/// The edition that a word names.
pub open spec fn edition_of(s: Seq<char>) -> Option<Edition> {
    if s == "cinnamon"@ {
        Some(Edition::Cinnamon)
    } else if s == "mate"@ {
        Some(Edition::Mate)
    } else if s == "xfce"@ {
        Some(Edition::Xfce)
    } else {
        None
    }
}

impl Edition {
    /// The word that names the edition in file names.
    pub open spec fn name(self) -> Seq<char> {
        match self {
            Edition::Cinnamon => "cinnamon"@,
            Edition::Mate => "mate"@,
            Edition::Xfce => "xfce"@,
        }
    }

    /// The word that names the edition in file names.
    pub fn as_str(&self) -> (s: &'static str)
        ensures
            s@ == self.name(),
    {
        match self {
            Edition::Cinnamon => "cinnamon",
            Edition::Mate => "mate",
            Edition::Xfce => "xfce",
        }
    }

    /// The edition's name as an owned string.
    pub fn to_string(&self) -> (s: String)
        ensures
            s@ == self.name(),
    {
        self.as_str().to_owned()
    }

    /// Reads an edition from the characters of its name.
    pub fn from_chars(v: &Vec<char>) -> (r: Result<Edition, Error>)
        ensures
            r == match edition_of(v@) {
                Some(e) => Ok::<Edition, Error>(e),
                None => Err::<Edition, Error>(Error::InvalidEdition),
            },
    {
        if spells(v, "cinnamon") {
            Ok(Edition::Cinnamon)
        } else if spells(v, "mate") {
            Ok(Edition::Mate)
        } else if spells(v, "xfce") {
            Ok(Edition::Xfce)
        } else {
            Err(Error::InvalidEdition)
        }
    }

    /// Reads an edition from its name.
    pub fn parse(s: &str) -> (r: Result<Edition, Error>)
        ensures
            r == match edition_of(s@) {
                Some(e) => Ok::<Edition, Error>(e),
                None => Err::<Edition, Error>(Error::InvalidEdition),
            },
    {
        let v = chars_of(s);
        Edition::from_chars(&v)
    }
}

impl std::str::FromStr for Edition {
    type Err = Error;

    fn from_str(s: &str) -> (r: Result<Edition, Error>)
        ensures
            r == match edition_of(s@) {
                Some(e) => Ok::<Edition, Error>(e),
                None => Err::<Edition, Error>(Error::InvalidEdition),
            },
    {
        Edition::parse(s)
    }
}

/// Every edition's name is read back as that edition.
pub proof fn lemma_edition_name_parses(e: Edition)
    ensures
        edition_of(e.name()) == Some(e),
{
    reveal_strlit("cinnamon");
    reveal_strlit("mate");
    reveal_strlit("xfce");
    assert("cinnamon"@.len() == 8);
    assert("mate"@[0] == 'm');
    assert("xfce"@[0] == 'x');
}

/// What one manifest line says.
pub enum LineSpec {
    /// The line holds no white space and is passed over.
    Skip,
    /// The line gives the digest of an edition's image.
    Entry(Edition, Seq<char>),
    /// The line's file name cannot be read.
    Bad(Error),
}

/// Reads one line: the digest stands before the first white space character
/// (a space or a tab, among others), the file name after it, and the file
/// name's third hyphen-separated part is the edition.
pub open spec fn line_spec(line: Seq<char>) -> LineSpec {
    let sp = find_whitespace(line);
    if !(0 <= sp < line.len()) {
        LineSpec::Skip
    } else {
        match nth_token(line.skip(sp + 1), '-', 2) {
            None => LineSpec::Bad(Error::ShortFilename),
            Some(word) => match edition_of(word) {
                None => LineSpec::Bad(Error::InvalidEdition),
                Some(e) => LineSpec::Entry(e, line.take(sp)),
            },
        }
    }
}

/// The error of the first line that cannot be read, if there is one.
pub open spec fn first_error(lines: Seq<Seq<char>>) -> Option<Error>
    decreases lines.len(),
{
    if lines.len() == 0 {
        None
    } else {
        match first_error(lines.drop_last()) {
            Some(e) => Some(e),
            None => match line_spec(lines.last()) {
                LineSpec::Bad(e) => Some(e),
                _ => None,
            },
        }
    }
}

/// The digest that the last line for `edition` gives, if there is such a line.
pub open spec fn last_entry(lines: Seq<Seq<char>>, edition: Edition) -> Option<Seq<char>>
    decreases lines.len(),
{
    if lines.len() == 0 {
        None
    } else {
        match line_spec(lines.last()) {
            LineSpec::Entry(e, digest) if e == edition => Some(digest),
            _ => last_entry(lines.drop_last(), edition),
        }
    }
}

/// The lines of a manifest.
pub open spec fn lines_of(s: Seq<char>) -> Seq<Seq<char>> {
    split(s, '\n')
}

/// The expected digest of each edition's image.
#[derive(Debug, Clone)]
pub struct Manifest {
    pub cinnamon: Option<String>,
    pub mate: Option<String>,
    pub xfce: Option<String>,
}

impl Manifest {
    /// The digest recorded for `edition`.
    pub open spec fn entry(self, edition: Edition) -> Option<Seq<char>> {
        match edition {
            Edition::Cinnamon => opt_text(self.cinnamon),
            Edition::Mate => opt_text(self.mate),
            Edition::Xfce => opt_text(self.xfce),
        }
    }

    /// Whether the manifest is what `lines` say.
    pub open spec fn holds(self, lines: Seq<Seq<char>>) -> bool {
        forall|e: Edition| self.entry(e) == last_entry(lines, e)
    }

    /// A manifest without entries.
    pub fn empty() -> (m: Manifest)
        ensures
            forall|e: Edition| m.entry(e) is None,
    {
        Manifest { cinnamon: None, mate: None, xfce: None }
    }

    /// Records `digest` for `edition`, in place of an earlier one.
    pub fn insert(&mut self, edition: Edition, digest: String)
        ensures
            final(self).entry(edition) == Some(digest@),
            forall|e: Edition| e != edition ==> final(self).entry(e) == old(self).entry(e),
    {
        match edition {
            Edition::Cinnamon => {
                self.cinnamon = Some(digest);
            },
            Edition::Mate => {
                self.mate = Some(digest);
            },
            Edition::Xfce => {
                self.xfce = Some(digest);
            },
        }
    }

    /// The digest recorded for `edition`, or `MissingEdition`.
    pub fn expected(&self, edition: Edition) -> (r: Result<String, Error>)
        ensures
            match r {
                Ok(digest) => self.entry(edition) == Some(digest@),
                Err(e) => self.entry(edition) is None && e == Error::MissingEdition,
            },
    {
        let slot = match edition {
            Edition::Cinnamon => &self.cinnamon,
            Edition::Mate => &self.mate,
            Edition::Xfce => &self.xfce,
        };
        match slot {
            Some(digest) => Ok(digest.clone()),
            None => Err(Error::MissingEdition),
        }
    }
}

/// Reads one manifest line. `Ok(None)` is a line that is passed over.
pub fn read_line(line: &Vec<char>) -> (r: Result<Option<(Edition, String)>, Error>)
    ensures
        match r {
            Ok(None) => line_spec(line@) == LineSpec::Skip,
            Ok(Some((e, digest))) => line_spec(line@) == LineSpec::Entry(e, digest@),
            Err(e) => line_spec(line@) == LineSpec::Bad(e),
        },
{
    let n = line.len();
    let sp = find_whitespace_char(line, 0);
    if sp >= n {
        return Ok(None);
    }
    let file_name = slice_of(line, sp + 1, n);
    proof {
        assert(line@.skip(sp + 1) =~= line@.subrange(sp + 1, n as int));
        assert(line@.take(sp as int) =~= line@.subrange(0, sp as int));
    }
    match token(&file_name, '-', 2) {
        None => Err(Error::ShortFilename),
        Some(word) => match Edition::from_chars(&word) {
            Err(e) => Err(e),
            Ok(e) => Ok(Some((e, string_of(line, 0, sp)))),
        },
    }
}

/// Reads a checksum manifest. Lines without white space are passed over; the
/// first line whose file name cannot be read fails the whole manifest; of two
/// lines for one edition the later one counts.
pub fn parse_sha256sum_file(s: &str) -> (r: Result<Manifest, Error>)
    ensures
        match r {
            Ok(m) => first_error(lines_of(s@)) is None && m.holds(lines_of(s@)),
            Err(e) => first_error(lines_of(s@)) == Some(e),
        },
{
    let v = chars_of(s);
    let n = v.len();
    let mut m = Manifest::empty();
    let mut pos: usize = 0;
    let ghost mut done: Seq<Seq<char>> = Seq::empty();
    proof {
        assert(v@.skip(0) =~= v@);
        assert(done + split(v@.skip(0), '\n') =~= split(v@, '\n'));
    }
    loop
        invariant
            n == v@.len(),
            v@ == s@,
            pos <= n,
            done + split(v@.skip(pos as int), '\n') == lines_of(s@),
            first_error(done) is None,
            m.holds(done),
        decreases n - pos,
    {
        let end = find_char(&v, '\n', pos);
        let line = slice_of(&v, pos, end);
        let ghost rest = v@.skip(pos as int);
        let ghost before = done;
        proof {
            lemma_find_skip(v@, '\n', 0, pos as int);
            assert(rest.take(end - pos) =~= line@);
            done = done.push(line@);
            assert(done.drop_last() =~= before);
            assert(done.last() == line@);
        }
        match read_line(&line) {
            Err(e) => {
                proof {
                    lemma_first_error_prefix(done, lines_of(s@), before, split(rest, '\n'));
                }
                return Err(e);
            },
            Ok(None) => {},
            Ok(Some((edition, digest))) => {
                m.insert(edition, digest);
            },
        }
        assert(m.holds(done));
        if end >= n {
            proof {
                assert(split(rest, '\n') =~= seq![rest]);
                assert(rest =~= line@);
                assert(before + seq![rest] =~= done);
            }
            return Ok(m);
        }
        proof {
            assert(rest.skip(end - pos + 1) =~= v@.skip(end + 1));
            assert(before + (seq![line@] + split(v@.skip(end + 1), '\n')) =~= done + split(
                v@.skip(end + 1),
                '\n',
            ));
        }
        pos = end + 1;
    }
}

/// A line made of a digest without white space, one white space character
/// and a file name whose third hyphen-separated part names an edition gives
/// that digest for that edition.
pub proof fn lemma_line_of_the_form(
    digest: Seq<char>,
    separator: char,
    file_name: Seq<char>,
    edition: Edition,
)
    requires
        forall|i: int| 0 <= i < digest.len() ==> !is_whitespace(digest[i]),
        is_whitespace(separator),
        nth_token(file_name, '-', 2) == Some(edition.name()),
    ensures
        line_spec(digest + seq![separator] + file_name) == LineSpec::Entry(edition, digest),
{
    let line = digest + seq![separator] + file_name;
    let k = digest.len() as int;
    lemma_find_whitespace_bounds(line, 0);
    let sp = find_whitespace(line);
    assert(line[k] == separator);
    if sp < k {
        assert(line[sp] == digest[sp]);
    }
    assert(sp == k);
    assert(line.take(k) =~= digest);
    assert(line.skip(k + 1) =~= file_name);
    lemma_edition_name_parses(edition);
}

/// Every digest that a manifest records stands on one of its lines, for
/// that edition.
pub proof fn lemma_entry_has_line(lines: Seq<Seq<char>>, edition: Edition)
    requires
        last_entry(lines, edition) is Some,
    ensures
        exists|i: int|
            0 <= i < lines.len() && line_spec(#[trigger] lines[i]) == LineSpec::Entry(
                edition,
                last_entry(lines, edition).unwrap(),
            ),
    decreases lines.len(),
{
    let digest = last_entry(lines, edition).unwrap();
    let n = lines.len() - 1;
    if line_spec(lines.last()) == LineSpec::Entry(edition, digest) {
        assert(line_spec(lines[n]) == LineSpec::Entry(edition, digest));
    } else {
        lemma_entry_has_line(lines.drop_last(), edition);
        let i = choose|i: int|
            0 <= i < lines.drop_last().len() && line_spec(#[trigger] lines.drop_last()[i])
                == LineSpec::Entry(edition, digest);
        assert(lines[i] == lines.drop_last()[i]);
    }
}

/// Every line that gives a digest for an edition has that edition recorded,
/// with the digest of the last such line.
pub proof fn lemma_line_has_entry(lines: Seq<Seq<char>>, i: int, edition: Edition)
    requires
        0 <= i < lines.len(),
        line_spec(lines[i]) matches LineSpec::Entry(e, _) && e == edition,
    ensures
        last_entry(lines, edition) is Some,
    decreases lines.len(),
{
    if i < lines.len() - 1 {
        assert(lines.drop_last()[i] == lines[i]);
        lemma_line_has_entry(lines.drop_last(), i, edition);
    }
}

/// An error among the first lines is the error of the whole.
pub proof fn lemma_first_error_more(head: Seq<Seq<char>>, tail: Seq<Seq<char>>)
    requires
        first_error(head) is Some,
    ensures
        first_error(head + tail) == first_error(head),
    decreases tail.len(),
{
    if tail.len() == 0 {
        assert(head + tail =~= head);
    } else {
        lemma_first_error_more(head, tail.drop_last());
        assert((head + tail).drop_last() =~= head + tail.drop_last());
    }
}

proof fn lemma_first_error_prefix(
    done: Seq<Seq<char>>,
    all: Seq<Seq<char>>,
    before: Seq<Seq<char>>,
    rest: Seq<Seq<char>>,
)
    requires
        before + rest == all,
        rest.len() > 0,
        done == before.push(rest[0]),
        first_error(done) is Some,
    ensures
        first_error(all) == first_error(done),
{
    lemma_first_error_more(done, rest.skip(1));
    assert(done + rest.skip(1) =~= all);
}

} // verus!
