//! Rendering of completed windows as a CSV artifact: a fixed header row,
//! then one row per window holding the opening instant (as chrono prints a
//! UTC instant), the server sum and the member sum.

use vstd::prelude::*;

use crate::aggregator::EntryView;
use crate::aggregator::StatisticEntry;
use crate::aggregator::entry_views;
use crate::aggregator::process_spec;
use crate::aggregator::process_messages;
use crate::model::Root;
use crate::model::views_of_messages;

verus! {

/// The decimal digit character for a value 0 through 9.
pub open spec fn digit_char(d: int) -> char {
    if d == 0 {
        '0'
    } else if d == 1 {
        '1'
    } else if d == 2 {
        '2'
    } else if d == 3 {
        '3'
    } else if d == 4 {
        '4'
    } else if d == 5 {
        '5'
    } else if d == 6 {
        '6'
    } else if d == 7 {
        '7'
    } else if d == 8 {
        '8'
    } else {
        '9'
    }
}

/// Decimal representation of a non-negative number, most significant digit
/// first, with no leading zeros (a lone zero for 0).
pub open spec fn dec_of(n: int) -> Seq<char>
    decreases n,
{
    if n < 10 {
        seq![digit_char(n)]
    } else {
        dec_of(n / 10) + seq![digit_char(n % 10)]
    }
}

/// A character that never forces CSV quoting: ASCII, and none of comma,
/// double quote, CR, LF.
pub open spec fn csv_safe_char(c: char) -> bool {
    (c as u32) < 128 && c != ',' && c != '"' && c != '\n' && c != '\r'
}

/// A non-empty field of safe characters: the CSV writer emits it verbatim.
pub open spec fn csv_safe(s: Seq<char>) -> bool {
    s.len() > 0 && forall|i: int| 0 <= i < s.len() ==> csv_safe_char(s[i])
}

/// The UTF-8 bytes of an all-ASCII character sequence.
pub open spec fn ascii_bytes(s: Seq<char>) -> Seq<u8> {
    s.map_values(|c: char| c as u8)
}

/// The RFC3339 rendering (as chrono prints it) of the UTC instant `ns`
/// nanoseconds from the Unix epoch; a function of the instant alone.
pub uninterp spec fn timestamp_display(ns: int) -> Seq<char>;

/// Relies on chrono: `DateTime::<Utc>::from_timestamp_nanos` accepts every
/// `i64`, and `to_rfc3339` prints date, 'T', time and the numeric offset
/// "+00:00" — only ASCII digits, 'T', '-', ':', '.' and '+', never a comma,
/// double quote or line break, and never empty.
#[verifier::external_body]
fn format_timestamp(ns: i64) -> (r: String)
    ensures
        r@ == timestamp_display(ns as int),
        csv_safe(r@),
{
    chrono::DateTime::<chrono::Utc>::from_timestamp_nanos(ns).to_rfc3339()
}

/// csv's error type, declared opaquely so the record encoder can name it in
/// its signature; the encoder's contract rules the error case out, so the
/// library never reads a value of it.
#[verifier::external_type_specification]
#[verifier::external_body]
pub struct ExCsvError(csv::Error);

/// Relies on csv::Writer in its default configuration: fields holding no
/// comma, double quote, CR or LF are written verbatim, separated by commas,
/// and the record ends with a single LF. The call succeeds: the sink is an
/// in-memory `Vec` (no I/O error can arise) and a writer's first record
/// never trips the record-length check.
#[verifier::external_body]
fn csv_encode_record(a: &str, b: &str, c: &str) -> (r: Result<Vec<u8>, csv::Error>)
    requires
        csv_safe(a@),
        csv_safe(b@),
        csv_safe(c@),
    ensures
        r is Ok,
        r matches Ok(v) ==> v@ == ascii_bytes(
            a@ + seq![','] + b@ + seq![','] + c@ + seq!['\n'],
        ),
{
    let mut w = csv::Writer::from_writer(Vec::new());
    if let Err(e) = w.write_record(&[a, b, c]) {
        return Err(e);
    }
    match w.into_inner() {
        Ok(v) => Ok(v),
        Err(e) => Err(csv::Error::from(e.into_error())),
    }
}

/// The single digit character of `d` as a string slice.
fn digit_str(d: u64) -> (r: &'static str)
    requires
        d < 10,
    ensures
        r@ == seq![digit_char(d as int)],
{
    match d {
        0 => {
            proof {
                reveal_strlit("0");
                assert("0"@ =~= seq!['0']);
            }
            "0"
        },
        1 => {
            proof {
                reveal_strlit("1");
                assert("1"@ =~= seq!['1']);
            }
            "1"
        },
        2 => {
            proof {
                reveal_strlit("2");
                assert("2"@ =~= seq!['2']);
            }
            "2"
        },
        3 => {
            proof {
                reveal_strlit("3");
                assert("3"@ =~= seq!['3']);
            }
            "3"
        },
        4 => {
            proof {
                reveal_strlit("4");
                assert("4"@ =~= seq!['4']);
            }
            "4"
        },
        5 => {
            proof {
                reveal_strlit("5");
                assert("5"@ =~= seq!['5']);
            }
            "5"
        },
        6 => {
            proof {
                reveal_strlit("6");
                assert("6"@ =~= seq!['6']);
            }
            "6"
        },
        7 => {
            proof {
                reveal_strlit("7");
                assert("7"@ =~= seq!['7']);
            }
            "7"
        },
        8 => {
            proof {
                reveal_strlit("8");
                assert("8"@ =~= seq!['8']);
            }
            "8"
        },
        _ => {
            proof {
                reveal_strlit("9");
                assert("9"@ =~= seq!['9']);
            }
            "9"
        },
    }
}

/// Decimal rendering of a `u64`, exactly `dec_of`.
pub fn u64_to_string(n: u64) -> (r: String)
    ensures
        r@ == dec_of(n as int),
    decreases n,
{
    if n < 10 {
        String::from_str(digit_str(n))
    } else {
        let mut s = u64_to_string(n / 10);
        s.append(digit_str(n % 10));
        s
    }
}

/// Every decimal rendering is a non-empty run of CSV-safe digit characters.
proof fn lemma_dec_of_safe(n: int)
    requires
        n >= 0,
    ensures
        csv_safe(dec_of(n)),
    decreases n,
{
    if n < 10 {
        assert(csv_safe_char(digit_char(n)));
    } else {
        lemma_dec_of_safe(n / 10);
        assert(csv_safe_char(digit_char(n % 10)));
        assert forall|i: int| 0 <= i < dec_of(n).len() implies csv_safe_char(dec_of(n)[i]) by {
            if i < dec_of(n / 10).len() {
                assert(dec_of(n)[i] == dec_of(n / 10)[i]);
            } else {
                assert(dec_of(n)[i] == digit_char(n % 10));
            }
        }
    }
}

/// One CSV data row for a window, as characters.
pub open spec fn row_chars(e: EntryView) -> Seq<char> {
    timestamp_display(e.timestamp) + seq![','] + dec_of(e.servers_sum) + seq![','] + dec_of(
        e.members_sum,
    ) + seq!['\n']
}

/// The fixed CSV header row, as characters.
pub open spec fn header_chars() -> Seq<char> {
    "timestamp,servers,members\n"@
}

/// All data rows for a sequence of windows, in order.
pub open spec fn rows_chars(es: Seq<EntryView>) -> Seq<char>
    decreases es.len(),
{
    if es.len() == 0 {
        Seq::empty()
    } else {
        rows_chars(es.drop_last()) + row_chars(es.last())
    }
}

/// The whole CSV artifact for a sequence of windows, as bytes.
pub open spec fn output_bytes(es: Seq<EntryView>) -> Seq<u8> {
    ascii_bytes(header_chars() + rows_chars(es))
}

impl StatisticEntry {
    /// This window's CSV data row, encoded as bytes.
    pub fn csv_record(&self) -> (v: Vec<u8>)
        ensures
            v@ == ascii_bytes(row_chars(self@)),
    {
        let ts = format_timestamp(self.timestamp);
        let servers = u64_to_string(self.servers_sum);
        let members = u64_to_string(self.members_sum);
        proof {
            lemma_dec_of_safe(self.servers_sum as int);
            lemma_dec_of_safe(self.members_sum as int);
        }
        match csv_encode_record(ts.as_str(), servers.as_str(), members.as_str()) {
            Ok(v) => {
                proof {
                    assert(ts@ + seq![','] + servers@ + seq![','] + members@ + seq!['\n']
                        =~= row_chars(self@));
                }
                v
            },
            Err(_) => unreached(),
        }
    }
}

/// The fixed CSV header record, encoded as bytes.
pub fn csv_header() -> (v: Vec<u8>)
    ensures
        v@ == ascii_bytes(header_chars()),
{
    proof {
        reveal_strlit("timestamp");
        reveal_strlit("servers");
        reveal_strlit("members");
        reveal_strlit("timestamp,servers,members\n");
        assert(csv_safe("timestamp"@));
        assert(csv_safe("servers"@));
        assert(csv_safe("members"@));
        assert("timestamp"@ + seq![','] + "servers"@ + seq![','] + "members"@ + seq!['\n']
            =~= header_chars());
    }
    match csv_encode_record("timestamp", "servers", "members") {
        Ok(v) => v,
        Err(_) => unreached(),
    }
}

/// The entire CSV artifact for a sequence of emitted windows: the header
/// row, then one row per window, in order.
pub fn render_csv(entries: &Vec<StatisticEntry>) -> (r: Vec<u8>)
    ensures
        r@ == output_bytes(entry_views(entries@)),
{
    let mut out = csv_header();
    proof {
        assert(rows_chars(entry_views(entries@).take(0)) =~= Seq::<char>::empty());
        assert(header_chars() + Seq::<char>::empty() =~= header_chars());
    }
    let mut k: usize = 0;
    while k < entries.len()
        invariant
            k <= entries.len(),
            out@ == ascii_bytes(header_chars() + rows_chars(entry_views(entries@).take(k as int))),
        decreases entries.len() - k,
    {
        let mut rec = entries[k].csv_record();
        let ghost out_pre = out@;
        out.append(&mut rec);
        proof {
            let vs = entry_views(entries@);
            assert(vs.take(k + 1 as int).drop_last() =~= vs.take(k as int));
            assert(vs.take(k + 1 as int).last() == entries@[k as int]@);
            assert(out@ =~= ascii_bytes(header_chars() + rows_chars(vs.take(k + 1 as int))));
        }
        k = k + 1;
    }
    proof {
        assert(entry_views(entries@).take(entries@.len() as int) =~= entry_views(entries@));
    }
    out
}

/// The characters of the output artifact's name for a guild and channel.
pub open spec fn output_name_chars(guild_id: Seq<char>, channel_id: Seq<char>) -> Seq<char> {
    "output-"@ + guild_id + "-"@ + channel_id + ".csv"@
}

/// Deterministic output file name for one export document.
pub fn output_file_name(guild_id: &str, channel_id: &str) -> (r: String)
    ensures
        r@ == output_name_chars(guild_id@, channel_id@),
{
    let mut s = String::from_str("output-");
    s.append(guild_id);
    s.append("-");
    s.append(channel_id);
    s.append(".csv");
    s
}

/// Everything the pipeline writes for one export document.
pub struct FileOutput {
    pub file_name: String,
    pub data: Vec<u8>,
    pub rows: usize,
}

/// Compute one export document's whole output: the artifact name, the
/// artifact bytes, and the number of data rows written.
pub fn process_export(root: &Root) -> (f: FileOutput)
    ensures
        f.file_name@ == output_name_chars(root.guild.id@, root.channel.id@),
        f.data@ == output_bytes(process_spec(views_of_messages(root.messages@))),
        f.rows == process_spec(views_of_messages(root.messages@)).len(),
{
    let entries = process_messages(&root.messages);
    let data = render_csv(&entries);
    let file_name = output_file_name(root.guild.id.as_str(), root.channel.id.as_str());
    let rows = entries.len();
    FileOutput { file_name, data, rows }
}

} // verus!
