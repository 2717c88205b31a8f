//! File-table access: the snapshot record, the volume-path form the
//! file-table API needs, the listing selection rules, point-lookup
//! resolution, and the CSV and JSON renderings of file records.

use vstd::prelude::*;
use vstd::string::StrSliceExecFns;
use crate::errors::CliError;
use crate::filter::filter_accepts;
use crate::filter::filter_matches;
use crate::filter::CompiledFilter;
use crate::format::append_csv_field;
use crate::format::append_json_string;
use crate::format::bool_keyword;
use crate::format::bool_spec;
use crate::format::escape_csv_spec;
use crate::format::json_string_spec;
use crate::text::append_str;
use crate::text::chars_to_string;
use crate::text::dec_str;
use crate::text::drive_normalize_spec;
use crate::text::lemma_drive_normalize_idempotent;
use crate::text::trim_spec;
use crate::text::trim_str;
use crate::text::u64_to_dec_chars;

verus! {

/// One file-table entry snapshot: name, best-effort path, directory flag,
/// size in bytes, and optional timestamps already rendered as text (absent
/// when the table could not resolve them).
#[derive(Clone, Debug)]
pub struct FileRecord {
    pub name: String,
    pub path: String,
    pub is_directory: bool,
    pub size: u64,
    pub created: Option<String>,
    pub modified: Option<String>,
    pub accessed: Option<String>,
}

// ---------------------------------------------------------------------------
// Volume-path normalization (file-table form)
// ---------------------------------------------------------------------------

/// The local-device prefix the file-table API requires.
pub open spec fn mft_prefix() -> Seq<char> {
    seq!['\\', '\\', '.', '\\']
}

/// Canonicalize a volume identifier into the local-device form.
pub fn normalize_volume_path(volume: &str) -> (r: String)
    ensures
        r@ == drive_normalize_spec(mft_prefix(), volume@),
{
    let t = trim_str(volume);
    let n = t.as_str().unicode_len();
    let is_two = n == 2 && t.as_str().get_char(1) == ':';
    let is_three = n == 3 && t.as_str().get_char(1) == ':' && t.as_str().get_char(2) == '\\';
    if is_two || is_three {
        let c = t.as_str().get_char(0);
        let mut out: Vec<char> = Vec::new();
        out.push('\\');
        out.push('\\');
        out.push('.');
        out.push('\\');
        out.push(c);
        out.push(':');
        proof {
            assert(out@ =~= mft_prefix() + seq![trim_spec(volume@)[0], ':']);
        }
        chars_to_string(out)
    } else {
        t
    }
}

/// Normalizing a file-table path twice changes nothing after the first pass.
pub proof fn lemma_mft_normalize_idempotent(v: Seq<char>)
    ensures
        drive_normalize_spec(mft_prefix(), drive_normalize_spec(mft_prefix(), v))
            == drive_normalize_spec(mft_prefix(), v),
{
    lemma_drive_normalize_idempotent(mft_prefix(), v);
}

// ---------------------------------------------------------------------------
// Listing selection
// ---------------------------------------------------------------------------

/// Whether one record survives the per-entry predicates: the directory-only
/// test, then the filter against the record's path.
pub open spec fn record_passes(f: CompiledFilter, directories_only: bool, r: FileRecord) -> bool {
    (directories_only ==> r.is_directory) && filter_accepts(f, r.path@)
}

/// The selection predicate of one listing.
pub open spec fn lister_pred(f: CompiledFilter, directories_only: bool) -> spec_fn(
    FileRecord,
) -> bool {
    |r: FileRecord| record_passes(f, directories_only, r)
}

/// `len` more collected records would still be within the cap.
pub open spec fn under_limit(len: int, limit: Option<usize>) -> bool {
    match limit {
        None => true,
        Some(l) => len < l,
    }
}

/// The selected records, cut off at the cap.
pub open spec fn cap_records(s: Seq<FileRecord>, limit: Option<usize>) -> Seq<FileRecord> {
    match limit {
        None => s,
        Some(l) => if s.len() > l {
            s.take(l as int)
        } else {
            s
        },
    }
}

/// Collects the file records a table scan visits, applying the
/// directory-only predicate, the filter and the result cap, in the table's
/// visitation order. The iteration itself stays with the caller; the lister
/// only decides.
pub struct FileLister {
    pub filter: CompiledFilter,
    pub directories_only: bool,
    pub limit: Option<usize>,
    pub records: Vec<FileRecord>,
    pub seen: Ghost<Seq<FileRecord>>,
}

impl FileLister {
    /// The collected records are exactly the records seen so far that pass
    /// the predicates, in order, cut off at the cap.
    pub open spec fn wf(self) -> bool {
        self.records@ == cap_records(
            self.seen@.filter(lister_pred(self.filter, self.directories_only)),
            self.limit,
        )
    }

    /// A lister that has visited nothing yet.
    pub fn new(filter: CompiledFilter, directories_only: bool, limit: Option<usize>) -> (l:
        FileLister)
        ensures
            l.wf(),
            l.filter == filter,
            l.directories_only == directories_only,
            l.limit == limit,
            l.records@.len() == 0,
            l.seen@.len() == 0,
    {
        let l = FileLister {
            filter,
            directories_only,
            limit,
            records: Vec::new(),
            seen: Ghost(Seq::empty()),
        };
        proof {
            reveal(Seq::filter);
            assert(l.seen@.filter(lister_pred(l.filter, l.directories_only)) =~= Seq::<
                FileRecord,
            >::empty());
        }
        l
    }

    /// Offer the next visited record to the lister.
    pub fn consider(&mut self, rec: FileRecord)
        requires
            old(self).wf(),
        ensures
            final(self).wf(),
            final(self).filter == old(self).filter,
            final(self).directories_only == old(self).directories_only,
            final(self).limit == old(self).limit,
            final(self).seen@ == old(self).seen@.push(rec),
            final(self).records@ == if record_passes(old(self).filter, old(self).directories_only, rec)
                && under_limit(old(self).records@.len() as int, old(self).limit) {
                old(self).records@.push(rec)
            } else {
                old(self).records@
            },
    {
        let ghost pred = lister_pred(old(self).filter, old(self).directories_only);
        let ghost seen0 = self.seen@;
        let ghost f0 = seen0.filter(pred);
        let passes_dir = !self.directories_only || rec.is_directory;
        let passes_filter = filter_matches(&self.filter, rec.path.as_str());
        let passes = passes_dir && passes_filter;
        let under = match self.limit {
            None => true,
            Some(l) => self.records.len() < l,
        };
        proof {
            reveal(Seq::filter);
            self.seen@ = seen0.push(rec);
            assert(seen0.push(rec).drop_last() =~= seen0);
            assert(seen0.push(rec).last() == rec);
            assert(seen0.push(rec).filter(pred) == if pred(rec) {
                f0.push(rec)
            } else {
                f0
            });
            assert(pred(rec) == record_passes(self.filter, self.directories_only, rec));
        }
        if passes && under {
            self.records.push(rec);
        }
        proof {
            let f1 = self.seen@.filter(pred);
            if passes {
                match self.limit {
                    None => {
                        assert(self.records@ =~= cap_records(f1, self.limit));
                    },
                    Some(l) => {
                        if under {
                            // the cap had not been reached, so the filter
                            // output and the collected records coincided
                            assert(f0.len() <= l);
                            assert(self.records@ =~= cap_records(f1, self.limit));
                        } else {
                            assert(f0.len() >= l);
                            assert(f1.take(l as int) =~= f0.take(l as int));
                            assert(self.records@ =~= cap_records(f1, self.limit));
                        }
                    },
                }
            } else {
                assert(self.records@ =~= cap_records(f1, self.limit));
            }
        }
    }

    /// Hand out the collected records once the scan is complete.
    pub fn into_records(self) -> (r: Vec<FileRecord>)
        ensures
            r@ == self.records@,
    {
        self.records
    }
}

/// Every record a listing emits is a directory when directories were asked
/// for, matches the filter, and stands in table-visitation order: the output
/// is the capped filtering of the visited sequence.
pub proof fn lemma_listing_sound(l: FileLister)
    requires
        l.wf(),
    ensures
        forall|i: int|
            0 <= i < l.records@.len() ==> record_passes(
                l.filter,
                l.directories_only,
                #[trigger] l.records@[i],
            ),
        l.records@ == cap_records(l.seen@.filter(lister_pred(l.filter, l.directories_only)), l.limit),
{
    let pred = lister_pred(l.filter, l.directories_only);
    let f = l.seen@.filter(pred);
    assert forall|i: int| 0 <= i < l.records@.len() implies record_passes(
        l.filter,
        l.directories_only,
        #[trigger] l.records@[i],
    ) by {
        match l.limit {
            None => {
                assert(l.records@[i] == f[i]);
            },
            Some(lim) => {
                if f.len() > lim {
                    assert(l.records@ == f.take(lim as int));
                    assert(l.records@[i] == f.take(lim as int)[i]);
                }
                assert(l.records@[i] == f[i]);
            },
        }
        assert(0 <= i < f.len());
        l.seen@.lemma_filter_pred(pred, i);
    }
}

// ---------------------------------------------------------------------------
// Point lookup
// ---------------------------------------------------------------------------

/// Resolve a point lookup: a found record is returned; a missing or invalid
/// record is a failure naming the requested number, never an empty success.
pub fn resolve_lookup(record_number: u64, found: Option<FileRecord>) -> (r: Result<
    FileRecord,
    CliError,
>)
    ensures
        r is Ok <==> found is Some,
        found matches Some(rec) ==> (r matches Ok(out) && out == rec),
        found is None ==> (r matches Err(e) && e == (CliError::RecordNotFound {
            record: record_number,
        })),
{
    match found {
        Some(rec) => Ok(rec),
        None => Err(CliError::RecordNotFound { record: record_number }),
    }
}

// ---------------------------------------------------------------------------
// CSV and JSON renderings of file records
// ---------------------------------------------------------------------------

/// An optional text field: empty when absent.
pub open spec fn opt_field_spec(o: Option<String>) -> Seq<char> {
    match o {
        None => Seq::empty(),
        Some(s) => s@,
    }
}

/// The fixed file-record CSV column order.
pub open spec fn file_csv_header_spec() -> Seq<char> {
    "name,path,is_directory,size,created,modified,accessed"@
}

/// The CSV header line for file records, without a line terminator.
pub fn file_csv_header() -> (r: String)
    ensures
        r@ == file_csv_header_spec(),
{
    "name,path,is_directory,size,created,modified,accessed".to_owned()
}

/// One CSV data line for a record, without a line terminator.
pub open spec fn csv_line_of_record(r: FileRecord) -> Seq<char> {
    escape_csv_spec(r.name@) + ","@ + escape_csv_spec(r.path@) + ","@ + bool_spec(r.is_directory)
        + ","@ + dec_str(r.size as nat) + ","@ + opt_field_spec(r.created) + ","@ + opt_field_spec(
        r.modified,
    ) + ","@ + opt_field_spec(r.accessed)
}

fn append_opt_field(out: &mut Vec<char>, o: &Option<String>)
    ensures
        final(out)@ == old(out)@ + opt_field_spec(*o),
{
    match o {
        None => (),
        Some(s) => append_str(out, s.as_str()),
    }
}

/// Render one file record as a CSV line.
pub fn file_csv_line(r: &FileRecord) -> (res: String)
    ensures
        res@ == csv_line_of_record(*r),
{
    let mut out: Vec<char> = Vec::new();
    append_csv_field(&mut out, r.name.as_str());
    append_str(&mut out, ",");
    append_csv_field(&mut out, r.path.as_str());
    append_str(&mut out, ",");
    append_str(&mut out, bool_keyword(r.is_directory));
    append_str(&mut out, ",");
    let mut size = u64_to_dec_chars(r.size);
    out.append(&mut size);
    append_str(&mut out, ",");
    append_opt_field(&mut out, &r.created);
    append_str(&mut out, ",");
    append_opt_field(&mut out, &r.modified);
    append_str(&mut out, ",");
    append_opt_field(&mut out, &r.accessed);
    proof {
        assert(out@ =~= csv_line_of_record(*r));
    }
    chars_to_string(out)
}

pub open spec fn csv_lines_of_records(records: Seq<FileRecord>) -> Seq<char>
    decreases records.len(),
{
    if records.len() == 0 {
        Seq::empty()
    } else {
        csv_lines_of_records(records.drop_last()) + csv_line_of_record(records.last()) + "\n"@
    }
}

/// The whole-listing CSV document: the header line, then one line per record.
pub open spec fn csv_batch_of_records(records: Seq<FileRecord>) -> Seq<char> {
    file_csv_header_spec() + "\n"@ + csv_lines_of_records(records)
}

/// Render a listing as one CSV document.
pub fn file_csv_batch(records: &Vec<FileRecord>) -> (r: String)
    ensures
        r@ == csv_batch_of_records(records@),
{
    let mut out: Vec<char> = Vec::new();
    append_str(&mut out, "name,path,is_directory,size,created,modified,accessed");
    append_str(&mut out, "\n");
    let n = records.len();
    let mut i: usize = 0;
    while i < n
        invariant
            n == records@.len(),
            0 <= i <= n,
            out@ == file_csv_header_spec() + "\n"@ + csv_lines_of_records(records@.take(i as int)),
        decreases n - i,
    {
        let line = file_csv_line(&records[i]);
        append_str(&mut out, line.as_str());
        append_str(&mut out, "\n");
        proof {
            assert(records@.take(i + 1).drop_last() =~= records@.take(i as int));
            assert(records@.take(i + 1).last() == records@[i as int]);
            assert(out@ =~= file_csv_header_spec() + "\n"@ + csv_lines_of_records(
                records@.take(i + 1),
            ));
        }
        i = i + 1;
    }
    proof {
        assert(records@.take(n as int) =~= records@);
    }
    chars_to_string(out)
}

/// An optional JSON string: `null` when absent.
pub open spec fn json_opt_string_spec(o: Option<String>) -> Seq<char> {
    match o {
        None => "null"@,
        Some(s) => json_string_spec(s@),
    }
}

fn append_json_opt(out: &mut Vec<char>, o: &Option<String>)
    ensures
        final(out)@ == old(out)@ + json_opt_string_spec(*o),
{
    match o {
        None => append_str(out, "null"),
        Some(s) => append_json_string(out, s.as_str()),
    }
}

/// One file record as a compact JSON object, fields in declaration order.
pub open spec fn json_of_record(r: FileRecord) -> Seq<char> {
    "{\"name\":"@ + json_string_spec(r.name@) + ",\"path\":"@ + json_string_spec(r.path@)
        + ",\"is_directory\":"@ + bool_spec(r.is_directory) + ",\"size\":"@ + dec_str(
        r.size as nat,
    ) + ",\"created\":"@ + json_opt_string_spec(r.created) + ",\"modified\":"@
        + json_opt_string_spec(r.modified) + ",\"accessed\":"@ + json_opt_string_spec(r.accessed)
        + "}"@
}

/// Render one file record as a compact JSON object.
pub fn file_json_record(r: &FileRecord) -> (res: String)
    ensures
        res@ == json_of_record(*r),
{
    let mut out: Vec<char> = Vec::new();
    append_str(&mut out, "{\"name\":");
    append_json_string(&mut out, r.name.as_str());
    append_str(&mut out, ",\"path\":");
    append_json_string(&mut out, r.path.as_str());
    append_str(&mut out, ",\"is_directory\":");
    append_str(&mut out, bool_keyword(r.is_directory));
    append_str(&mut out, ",\"size\":");
    let mut size = u64_to_dec_chars(r.size);
    out.append(&mut size);
    append_str(&mut out, ",\"created\":");
    append_json_opt(&mut out, &r.created);
    append_str(&mut out, ",\"modified\":");
    append_json_opt(&mut out, &r.modified);
    append_str(&mut out, ",\"accessed\":");
    append_json_opt(&mut out, &r.accessed);
    append_str(&mut out, "}");
    proof {
        assert(out@ =~= json_of_record(*r));
    }
    chars_to_string(out)
}

/// One file record as an indented JSON object whose closing brace sits at
/// indentation `ind`: each field on its own line, two further spaces deep.
pub open spec fn json_pretty_of_record(r: FileRecord, ind: Seq<char>) -> Seq<char> {
    "{\n"@ + ind + "  \"name\": "@ + json_string_spec(r.name@) + ",\n"@ + ind + "  \"path\": "@
        + json_string_spec(r.path@) + ",\n"@ + ind + "  \"is_directory\": "@ + bool_spec(
        r.is_directory,
    ) + ",\n"@ + ind + "  \"size\": "@ + dec_str(r.size as nat) + ",\n"@ + ind + "  \"created\": "@
        + json_opt_string_spec(r.created) + ",\n"@ + ind + "  \"modified\": "@
        + json_opt_string_spec(r.modified) + ",\n"@ + ind + "  \"accessed\": "@
        + json_opt_string_spec(r.accessed) + "\n"@ + ind + "}"@
}

#[verifier::rlimit(60)]
fn append_pretty_record(out: &mut Vec<char>, r: &FileRecord, ind: &str)
    ensures
        final(out)@ == old(out)@ + json_pretty_of_record(*r, ind@),
{
    append_str(out, "{\n");
    append_str(out, ind);
    append_str(out, "  \"name\": ");
    append_json_string(out, r.name.as_str());
    append_str(out, ",\n");
    append_str(out, ind);
    append_str(out, "  \"path\": ");
    append_json_string(out, r.path.as_str());
    append_str(out, ",\n");
    append_str(out, ind);
    append_str(out, "  \"is_directory\": ");
    append_str(out, bool_keyword(r.is_directory));
    append_str(out, ",\n");
    append_str(out, ind);
    append_str(out, "  \"size\": ");
    let mut size = u64_to_dec_chars(r.size);
    out.append(&mut size);
    append_str(out, ",\n");
    append_str(out, ind);
    append_str(out, "  \"created\": ");
    append_json_opt(out, &r.created);
    append_str(out, ",\n");
    append_str(out, ind);
    append_str(out, "  \"modified\": ");
    append_json_opt(out, &r.modified);
    append_str(out, ",\n");
    append_str(out, ind);
    append_str(out, "  \"accessed\": ");
    append_json_opt(out, &r.accessed);
    append_str(out, "\n");
    append_str(out, ind);
    append_str(out, "}");
    proof {
        assert(out@ =~= old(out)@ + json_pretty_of_record(*r, ind@));
    }
}

/// Render one file record as a standalone indented JSON object.
pub fn file_json_record_pretty(r: &FileRecord) -> (res: String)
    ensures
        res@ == json_pretty_of_record(*r, Seq::empty()),
{
    let mut out: Vec<char> = Vec::new();
    append_pretty_record(&mut out, r, "");
    proof {
        reveal_strlit("");
        assert(""@ =~= Seq::<char>::empty());
        assert(out@ =~= json_pretty_of_record(*r, Seq::empty()));
    }
    chars_to_string(out)
}

pub open spec fn json_pretty_items_of_records(records: Seq<FileRecord>) -> Seq<char>
    decreases records.len(),
{
    if records.len() == 0 {
        Seq::empty()
    } else if records.len() == 1 {
        "  "@ + json_pretty_of_record(records[0], "  "@)
    } else {
        json_pretty_items_of_records(records.drop_last()) + ",\n"@ + "  "@ + json_pretty_of_record(
            records.last(),
            "  "@,
        )
    }
}

/// The whole-listing indented JSON document: one array, one object per
/// record, each indented one level.
pub open spec fn json_pretty_batch_of_records(records: Seq<FileRecord>) -> Seq<char> {
    if records.len() == 0 {
        "[]"@
    } else {
        "[\n"@ + json_pretty_items_of_records(records) + "\n]"@
    }
}

/// Render a listing as one indented JSON array.
pub fn file_json_batch_pretty(records: &Vec<FileRecord>) -> (r: String)
    ensures
        r@ == json_pretty_batch_of_records(records@),
{
    if records.len() == 0 {
        return "[]".to_owned();
    }
    let mut out: Vec<char> = Vec::new();
    append_str(&mut out, "[\n");
    let n = records.len();
    let mut i: usize = 0;
    while i < n
        invariant
            n == records@.len(),
            0 < n,
            0 <= i <= n,
            out@ == "[\n"@ + json_pretty_items_of_records(records@.take(i as int)),
        decreases n - i,
    {
        if i > 0 {
            append_str(&mut out, ",\n");
        }
        append_str(&mut out, "  ");
        append_pretty_record(&mut out, &records[i], "  ");
        proof {
            assert(records@.take(i + 1).drop_last() =~= records@.take(i as int));
            assert(records@.take(i + 1).last() == records@[i as int]);
            if i == 0 {
                assert(records@.take(1)[0] == records@[0]);
            }
            assert(out@ =~= "[\n"@ + json_pretty_items_of_records(records@.take(i + 1)));
        }
        i = i + 1;
    }
    append_str(&mut out, "\n]");
    proof {
        assert(records@.take(n as int) =~= records@);
        assert(out@ =~= json_pretty_batch_of_records(records@));
    }
    chars_to_string(out)
}

pub open spec fn json_items_of_records(records: Seq<FileRecord>) -> Seq<char>
    decreases records.len(),
{
    if records.len() == 0 {
        Seq::empty()
    } else if records.len() == 1 {
        json_of_record(records[0])
    } else {
        json_items_of_records(records.drop_last()) + ","@ + json_of_record(records.last())
    }
}

/// The whole-listing JSON document: one compact array of record objects.
pub open spec fn json_batch_of_records(records: Seq<FileRecord>) -> Seq<char> {
    "["@ + json_items_of_records(records) + "]"@
}

/// Render a listing as one compact JSON array.
pub fn file_json_batch(records: &Vec<FileRecord>) -> (r: String)
    ensures
        r@ == json_batch_of_records(records@),
{
    let mut out: Vec<char> = Vec::new();
    append_str(&mut out, "[");
    let n = records.len();
    let mut i: usize = 0;
    while i < n
        invariant
            n == records@.len(),
            0 <= i <= n,
            out@ == "["@ + json_items_of_records(records@.take(i as int)),
        decreases n - i,
    {
        if i > 0 {
            append_str(&mut out, ",");
        }
        let item = file_json_record(&records[i]);
        append_str(&mut out, item.as_str());
        proof {
            assert(records@.take(i + 1).drop_last() =~= records@.take(i as int));
            assert(records@.take(i + 1).last() == records@[i as int]);
            if i == 0 {
                assert(records@.take(1)[0] == records@[0]);
            }
            assert(out@ =~= "["@ + json_items_of_records(records@.take(i + 1)));
        }
        i = i + 1;
    }
    append_str(&mut out, "]");
    proof {
        assert(records@.take(n as int) =~= records@);
        assert(out@ =~= json_batch_of_records(records@));
    }
    chars_to_string(out)
}

} // verus!
