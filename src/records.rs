use vstd::prelude::*;
use crate::column::KernelError;

verus! {

/// The character that separates the fields of a record.
pub const FIELD_SEPARATOR: char = ',';

/// The field of a record that holds the first name.
pub const FIRST_NAME_INDEX: usize = 2;

/// The field of a record that holds the last name.
pub const LAST_NAME_INDEX: usize = 3;

/// The fields of a line, split at every separator; a line without one is a single field.
pub open spec fn fields_of(s: Seq<char>) -> Seq<Seq<char>>
    decreases s.len(),
{
    if s.len() == 0 {
        seq![Seq::empty()]
    } else {
        let f = fields_of(s.drop_last());
        if s.last() == FIELD_SEPARATOR {
            f.push(Seq::empty())
        } else {
            f.update(f.len() - 1, f.last().push(s.last()))
        }
    }
}

/// The fields written out in order, with one separator between each two.
pub open spec fn joined(fields: Seq<Seq<char>>) -> Seq<char>
    decreases fields.len(),
{
    if fields.len() <= 1 {
        if fields.len() == 0 {
            Seq::empty()
        } else {
            fields[0]
        }
    } else {
        joined(fields.drop_last()) + seq![FIELD_SEPARATOR] + fields.last()
    }
}

/// The text of a list of strings.
pub open spec fn string_views(v: Seq<String>) -> Seq<Seq<char>> {
    v.map_values(|s: String| s@)
}

/// The upper-case form of a string, as std's Unicode case mapping gives it.
pub uninterp spec fn upper_of(s: Seq<char>) -> Seq<char>;

/// The record with its two name fields replaced.
pub open spec fn with_names(fields: Seq<Seq<char>>, first: Seq<char>, last: Seq<char>) -> Seq<
    char,
> {
    joined(fields.update(FIRST_NAME_INDEX as int, first).update(LAST_NAME_INDEX as int, last))
}

/// Relies on str::to_uppercase: the result depends on the characters alone.
#[verifier::external_body]
fn uppercase(s: &str) -> (r: String)
    ensures
        r@ == upper_of(s@),
{
    s.to_uppercase()
}

proof fn lemma_fields_nonempty(s: Seq<char>)
    ensures
        fields_of(s).len() >= 1,
    decreases s.len(),
{
    if s.len() > 0 {
        lemma_fields_nonempty(s.drop_last());
    }
}

/// Splits a line into its fields at every separator.
pub fn split_fields(line: &str) -> (r: Vec<String>)
    ensures
        string_views(r@) == fields_of(line@),
{
    let n = line.unicode_len();
    let mut done: Vec<String> = Vec::new();
    let mut current = String::new();
    let mut i: usize = 0;
    while i < n
        invariant
            n == line@.len(),
            i <= n,
            string_views(done@).push(current@) == fields_of(line@.subrange(0, i as int)),
        decreases n - i,
    {
        let c = line.get_char(i);
        let ghost prev = line@.subrange(0, i as int);
        let ghost next = line@.subrange(0, i + 1);
        assert(next.drop_last() =~= prev);
        assert(next.last() == c);
        if c == FIELD_SEPARATOR {
            let ghost old_done = done@;
            done.push(current);
            current = String::new();
            assert(string_views(done@) =~= string_views(old_done).push(
                fields_of(prev).last(),
            ));
            assert(string_views(done@).push(current@) =~= fields_of(next));
        } else {
            let piece = line.substring_char(i, i + 1);
            let ghost old_cur = current@;
            current.append(piece);
            assert(piece@ =~= seq![c]);
            assert(current@ =~= old_cur.push(c));
            proof {
                lemma_fields_nonempty(prev);
            }
            assert(string_views(done@).push(current@) =~= fields_of(next));
        }
        i += 1;
    }
    assert(line@.subrange(0, n as int) =~= line@);
    done.push(current);
    done
}

/// Writes fields out as one line, with a separator between each two.
pub fn join_fields(fields: &Vec<String>) -> (r: String)
    ensures
        r@ == joined(string_views(fields@)),
{
    if fields.len() == 0 {
        return String::new();
    }
    let mut out = fields[0].clone();
    let mut k: usize = 1;
    let sep = ",";
    proof {
        reveal_strlit(",");
        assert(string_views(fields@).subrange(0, 1) =~= seq![fields@[0]@]);
    }
    while k < fields.len()
        invariant
            1 <= k <= fields@.len(),
            sep@ == seq![FIELD_SEPARATOR],
            out@ == joined(string_views(fields@).subrange(0, k as int)),
        decreases fields@.len() - k,
    {
        let ghost before = string_views(fields@).subrange(0, k as int);
        out.append(sep);
        out.append(fields[k].as_str());
        proof {
            let after = string_views(fields@).subrange(0, k + 1);
            assert(after.drop_last() =~= before);
        }
        k += 1;
    }
    assert(string_views(fields@).subrange(0, fields@.len() as int) =~= string_views(fields@));
    out
}

/// Rebuilds a record from its fields with the two name fields replaced by `first` and `last`.
pub fn replace_name_fields(fields: &Vec<String>, first: String, last: String) -> (r: Result<
    String,
    KernelError,
>)
    ensures
        r is Ok <==> fields@.len() > LAST_NAME_INDEX,
        r is Ok ==> r->Ok_0@ == with_names(string_views(fields@), first@, last@),
        r is Err ==> r->Err_0 == KernelError::MalformedRecord,
{
    if fields.len() <= LAST_NAME_INDEX {
        return Err(KernelError::MalformedRecord);
    }
    let mut out: Vec<String> = Vec::new();
    let mut k: usize = 0;
    let ghost target = string_views(fields@).update(FIRST_NAME_INDEX as int, first@).update(
        LAST_NAME_INDEX as int,
        last@,
    );
    while k < fields.len()
        invariant
            k <= fields@.len(),
            fields@.len() > LAST_NAME_INDEX,
            target == string_views(fields@).update(FIRST_NAME_INDEX as int, first@).update(
                LAST_NAME_INDEX as int,
                last@,
            ),
            string_views(out@) =~= target.subrange(0, k as int),
        decreases fields@.len() - k,
    {
        let ghost old_out = out@;
        if k == FIRST_NAME_INDEX {
            out.push(first.clone());
        } else if k == LAST_NAME_INDEX {
            out.push(last.clone());
        } else {
            out.push(fields[k].clone());
        }
        assert(string_views(out@) =~= string_views(old_out).push(target[k as int]));
        k += 1;
    }
    assert(target.subrange(0, fields@.len() as int) =~= target);
    Ok(join_fields(&out))
}

/// The stage that upper-cases the name fields of every record after the header line.
#[derive(Debug)]
pub struct CsvLineTransformer {
    at_header: bool,
}

impl CsvLineTransformer {
    /// The next line is the header.
    pub closed spec fn expects_header(&self) -> bool {
        self.at_header
    }

    /// A stage that has seen no line yet.
    pub fn new() -> (r: CsvLineTransformer)
        ensures
            r.expects_header(),
    {
        CsvLineTransformer { at_header: true }
    }

    /// Transforms one line: the header passes unchanged; in every later record the name
    /// fields are upper-cased. A record with too few fields is malformed.
    pub fn transform_line(&mut self, line: &str) -> (r: Result<String, KernelError>)
        ensures
            !final(self).expects_header(),
            old(self).expects_header() ==> r is Ok && r->Ok_0@ == line@,
            !old(self).expects_header() ==> {
                let f = fields_of(line@);
                &&& (r is Ok <==> f.len() > LAST_NAME_INDEX)
                &&& r is Ok ==> r->Ok_0@ == with_names(
                    f,
                    upper_of(f[FIRST_NAME_INDEX as int]),
                    upper_of(f[LAST_NAME_INDEX as int]),
                )
                &&& r is Err ==> r->Err_0 == KernelError::MalformedRecord
            },
    {
        if self.at_header {
            self.at_header = false;
            return Ok(line.to_owned());
        }
        let fields = split_fields(line);
        if fields.len() <= LAST_NAME_INDEX {
            return Err(KernelError::MalformedRecord);
        }
        let first = uppercase(fields[FIRST_NAME_INDEX].as_str());
        let last = uppercase(fields[LAST_NAME_INDEX].as_str());
        replace_name_fields(&fields, first, last)
    }
}

} // verus!
