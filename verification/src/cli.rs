//! The command surface of the tool: which cipher runs, in which direction,
//! and where a Vernam key comes from or goes to. `parse` turns a raw
//! argument list into a `Cli` value and accepts exactly the grammar spelled
//! out by the `valid_*` predicates.

use vstd::prelude::*;

verus! {

/// Direction selection: exactly one of the two flags is set.
pub struct GroupMode {
    /// Encrypt the input.
    pub cypher: bool,
    /// Decrypt the input.
    pub decypher: bool,
}

/// Where the Vernam key comes from or goes to: exactly one of the two is
/// given.
pub struct GroupVernamKey {
    /// Read the key from this file.
    pub key_file: Option<String>,
    /// Generate a key and write it to this file.
    pub out_key_file: Option<String>,
}

/// The selected cipher with its arguments.
pub enum Commands {
    Cesar { key: u8, mode: GroupMode },
    Vernam { key_group: GroupVernamKey, mode: GroupMode },
    Cryptanalysis,
}

/// A parsed command line.
pub struct Cli {
    pub algorithm: Commands,
}

/// An argument list that fits no accepted command shape.
#[derive(Debug, Clone, Copy, PartialEq, Eq, Structural)]
pub enum CliError {
    Usage,
}

/// Compare two strings character by character.
pub fn str_eq(a: &str, b: &str) -> (r: bool)
    ensures
        r == (a@ == b@),
{
    let na = a.unicode_len();
    let nb = b.unicode_len();
    if na != nb {
        return false;
    }
    let mut i: usize = 0;
    while i < na
        invariant
            na == a@.len(),
            na == b@.len(),
            i <= na,
            forall|j: int| 0 <= j < i ==> a@[j] == b@[j],
        decreases na - i,
    {
        if a.get_char(i) != b.get_char(i) {
            return false;
        }
        i = i + 1;
    }
    proof {
        assert(a@ =~= b@);
    }
    true
}

/// A decimal digit.
pub open spec fn is_digit(c: char) -> bool {
    '0' <= c && c <= '9'
}

/// A non-empty string of decimal digits.
pub open spec fn all_digits(s: Seq<char>) -> bool {
    s.len() > 0 && forall|i: int| 0 <= i < s.len() ==> is_digit(#[trigger] s[i])
}

/// The number a digit string denotes.
pub open spec fn dec_value(s: Seq<char>) -> int
    decreases s.len(),
{
    if s.len() == 0 {
        0
    } else {
        dec_value(s.drop_last()) * 10 + (s.last() as int - '0' as int)
    }
}

/// A digit string denoting a value that fits in a byte.
pub open spec fn is_u8_decimal(s: Seq<char>) -> bool {
    all_digits(s) && dec_value(s) <= 255
}

/// A digit string denotes a non-negative number.
proof fn lemma_dec_value_nonneg(s: Seq<char>)
    requires
        forall|t: int| 0 <= t < s.len() ==> is_digit(#[trigger] s[t]),
    ensures
        dec_value(s) >= 0,
    decreases s.len(),
{
    if s.len() > 0 {
        lemma_dec_value_nonneg(s.drop_last());
    }
}

/// Reading more digits never lowers the denoted value.
proof fn lemma_dec_value_mono(s: Seq<char>, i: int, j: int)
    requires
        0 <= i <= j <= s.len(),
        forall|t: int| 0 <= t < j ==> is_digit(#[trigger] s[t]),
    ensures
        dec_value(s.take(i)) <= dec_value(s.take(j)),
    decreases j - i,
{
    if i < j {
        lemma_dec_value_mono(s, i, j - 1);
        assert(s.take(j).drop_last() =~= s.take(j - 1));
        assert(forall|t: int| 0 <= t < j - 1 ==> s.take(j - 1)[t] == s[t]);
        lemma_dec_value_nonneg(s.take(j - 1));
        assert(s.take(j).last() == s[j - 1]);
    }
}

/// Read a byte from its decimal form: `Some` exactly on non-empty digit
/// strings denoting at most 255, and then the denoted value.
pub fn parse_u8(s: &str) -> (r: Option<u8>)
    ensures
        r matches Some(v) <==> is_u8_decimal(s@),
        r matches Some(v) ==> v as int == dec_value(s@),
{
    let n = s.unicode_len();
    if n == 0 {
        return None;
    }
    let mut acc: u32 = 0;
    let mut i: usize = 0;
    assert(s@.take(0) =~= Seq::<char>::empty());
    while i < n
        invariant
            n == s@.len(),
            0 < n,
            i <= n,
            forall|j: int| 0 <= j < i ==> is_digit(#[trigger] s@[j]),
            acc as int == dec_value(s@.take(i as int)),
            acc <= 255,
        decreases n - i,
    {
        let c = s.get_char(i);
        let u = c as u32;
        if u < 48 || u > 57 {
            return None;
        }
        proof {
            assert(s@.take(i as int + 1).drop_last() =~= s@.take(i as int));
            assert(s@.take(i as int + 1).last() == s@[i as int]);
        }
        acc = acc * 10 + (u - 48);
        if acc > 255 {
            proof {
                if forall|t: int| 0 <= t < n ==> is_digit(#[trigger] s@[t]) {
                    lemma_dec_value_mono(s@, i as int + 1, n as int);
                    assert(s@.take(n as int) =~= s@);
                }
            }
            return None;
        }
        i = i + 1;
    }
    proof {
        assert(s@.take(n as int) =~= s@);
    }
    Some(acc as u8)
}

/// The flag that selects encryption.
pub open spec fn is_cypher_flag(t: Seq<char>) -> bool {
    t == "--cypher"@ || t == "-c"@
}

/// The flag that selects decryption.
pub open spec fn is_decypher_flag(t: Seq<char>) -> bool {
    t == "--decypher"@ || t == "-d"@
}

/// Either direction flag.
pub open spec fn is_mode_flag(t: Seq<char>) -> bool {
    is_cypher_flag(t) || is_decypher_flag(t)
}

/// The flag that introduces the shift-cipher key.
pub open spec fn is_key_flag(t: Seq<char>) -> bool {
    t == "--key"@ || t == "-k"@
}

/// The flag that names the file a Vernam key is read from.
pub open spec fn is_key_file_flag(t: Seq<char>) -> bool {
    t == "--key-file"@ || t == "-k"@
}

/// The flag that names the file a generated Vernam key is written to.
pub open spec fn is_out_key_file_flag(t: Seq<char>) -> bool {
    t == "--out-key-file"@ || t == "-o"@
}

/// The shift-cipher command: its key flag with a byte value and exactly one
/// direction flag, in either order.
pub open spec fn valid_cesar_args(a: Seq<Seq<char>>) -> bool {
    &&& a.len() == 4
    &&& a[0] == "cesar"@
    &&& {
        ||| (is_key_flag(a[1]) && is_u8_decimal(a[2]) && is_mode_flag(a[3]))
        ||| (is_mode_flag(a[1]) && is_key_flag(a[2]) && is_u8_decimal(a[3]))
    }
}

/// The one-time-pad command: exactly one key-source flag with its file path
/// and exactly one direction flag, in either order.
pub open spec fn valid_vernam_args(a: Seq<Seq<char>>) -> bool {
    &&& a.len() == 4
    &&& a[0] == "vernam"@
    &&& {
        ||| ((is_key_file_flag(a[1]) || is_out_key_file_flag(a[1])) && is_mode_flag(a[3]))
        ||| (is_mode_flag(a[1]) && (is_key_file_flag(a[2]) || is_out_key_file_flag(a[2])))
    }
}

/// The analysis command: the bare subcommand.
pub open spec fn valid_cryptanalysis_args(a: Seq<Seq<char>>) -> bool {
    a.len() == 1 && a[0] == "cryptanalysis"@
}

/// Every argument list the tool accepts.
pub open spec fn valid_args(a: Seq<Seq<char>>) -> bool {
    valid_cesar_args(a) || valid_vernam_args(a) || valid_cryptanalysis_args(a)
}

/// Whether a direction selection reflects the given flag token.
pub open spec fn mode_matches(m: GroupMode, t: Seq<char>) -> bool {
    m.cypher == is_cypher_flag(t) && m.decypher == is_decypher_flag(t)
}

/// Whether `cli` is the reading of the accepted argument list `a`.
pub open spec fn cli_matches(cli: Cli, a: Seq<Seq<char>>) -> bool {
    if valid_cesar_args(a) {
        let kt = if is_key_flag(a[1]) {
            a[2]
        } else {
            a[3]
        };
        let mt = if is_key_flag(a[1]) {
            a[3]
        } else {
            a[1]
        };
        &&& cli.algorithm matches Commands::Cesar { key, mode }
        &&& cli.algorithm matches Commands::Cesar { key, mode } ==> key as int == dec_value(kt)
            && mode_matches(mode, mt)
    } else if valid_vernam_args(a) {
        let ft = if is_mode_flag(a[1]) {
            a[2]
        } else {
            a[1]
        };
        let pt = if is_mode_flag(a[1]) {
            a[3]
        } else {
            a[2]
        };
        let mt = if is_mode_flag(a[1]) {
            a[1]
        } else {
            a[3]
        };
        &&& cli.algorithm matches Commands::Vernam { key_group, mode }
        &&& cli.algorithm matches Commands::Vernam { key_group, mode } ==> mode_matches(mode, mt)
            && (if is_key_file_flag(ft) {
            key_group.key_file matches Some(p) && p@ == pt && key_group.out_key_file is None
        } else {
            key_group.out_key_file matches Some(p) && p@ == pt && key_group.key_file is None
        })
    } else {
        cli.algorithm is Cryptanalysis
    }
}

/// The flag and subcommand literals are pairwise distinct, so no token can
/// be read as two different flags.
proof fn lemma_flags_distinct()
    ensures
        !is_decypher_flag("--cypher"@),
        !is_decypher_flag("-c"@),
        !is_cypher_flag("--decypher"@),
        !is_cypher_flag("-d"@),
        !is_mode_flag("--key"@),
        !is_mode_flag("-k"@),
        !is_mode_flag("--key-file"@),
        !is_mode_flag("--out-key-file"@),
        !is_mode_flag("-o"@),
        !is_key_flag("--cypher"@),
        !is_key_flag("-c"@),
        !is_key_flag("--decypher"@),
        !is_key_flag("-d"@),
        !is_key_file_flag("--out-key-file"@),
        !is_key_file_flag("-o"@),
        "cesar"@ != "vernam"@,
{
    reveal_strlit("--cypher");
    reveal_strlit("-c");
    reveal_strlit("--decypher");
    reveal_strlit("-d");
    reveal_strlit("--key");
    reveal_strlit("-k");
    reveal_strlit("--key-file");
    reveal_strlit("--out-key-file");
    reveal_strlit("-o");
    reveal_strlit("cesar");
    reveal_strlit("vernam");
    assert("--cypher"@.len() == 8);
    assert("-c"@.len() == 2);
    assert("--decypher"@.len() == 10);
    assert("-d"@.len() == 2);
    assert("--key"@.len() == 5);
    assert("-k"@.len() == 2);
    assert("--key-file"@.len() == 10);
    assert("--out-key-file"@.len() == 14);
    assert("-o"@.len() == 2);
    assert("cesar"@.len() == 5);
    assert("vernam"@.len() == 6);
    assert("-c"@[1] != "-d"@[1]);
    assert("-c"@[1] != "-k"@[1]);
    assert("-c"@[1] != "-o"@[1]);
    assert("-d"@[1] != "-k"@[1]);
    assert("-d"@[1] != "-o"@[1]);
    assert("-k"@[1] != "-o"@[1]);
    assert("--decypher"@[2] != "--key-file"@[2]);
}

/// Whether `t` is a direction flag, and which.
fn read_mode_flag(t: &str) -> (r: Option<GroupMode>)
    ensures
        r matches Some(m) <==> is_mode_flag(t@),
        r matches Some(m) ==> mode_matches(m, t@),
{
    proof {
        lemma_flags_distinct();
    }
    if str_eq(t, "--cypher") || str_eq(t, "-c") {
        Some(GroupMode { cypher: true, decypher: false })
    } else if str_eq(t, "--decypher") || str_eq(t, "-d") {
        Some(GroupMode { cypher: false, decypher: true })
    } else {
        None
    }
}

/// Read the shift-cipher arguments after the subcommand: a key flag with its
/// value and a direction flag, in the order given.
fn read_cesar_tail(key_flag: &String, key_val: &String, mode_flag: &String) -> (r: Option<
    (u8, GroupMode),
>)
    ensures
        r matches Some(v) <==> is_key_flag(key_flag@) && is_u8_decimal(key_val@) && is_mode_flag(
            mode_flag@,
        ),
        r matches Some(v) ==> v.0 as int == dec_value(key_val@) && mode_matches(v.1, mode_flag@),
{
    if !(str_eq(key_flag.as_str(), "--key") || str_eq(key_flag.as_str(), "-k")) {
        return None;
    }
    match parse_u8(key_val.as_str()) {
        Some(key) => match read_mode_flag(mode_flag.as_str()) {
            Some(mode) => Some((key, mode)),
            None => None,
        },
        None => None,
    }
}

/// Read the one-time-pad arguments after the subcommand: a key-source flag
/// with its path and a direction flag, in the order given.
fn read_vernam_tail(file_flag: &String, path: &String, mode_flag: &String) -> (r: Option<
    (GroupVernamKey, GroupMode),
>)
    ensures
        r matches Some(v) <==> (is_key_file_flag(file_flag@) || is_out_key_file_flag(file_flag@))
            && is_mode_flag(mode_flag@),
        r matches Some(v) ==> mode_matches(v.1, mode_flag@) && (if is_key_file_flag(file_flag@) {
            v.0.key_file matches Some(p) && p@ == path@ && v.0.out_key_file is None
        } else {
            v.0.out_key_file matches Some(p) && p@ == path@ && v.0.key_file is None
        }),
{
    proof {
        lemma_flags_distinct();
    }
    let key_group: GroupVernamKey;
    if str_eq(file_flag.as_str(), "--key-file") || str_eq(file_flag.as_str(), "-k") {
        key_group = GroupVernamKey { key_file: Some(path.clone()), out_key_file: None };
    } else if str_eq(file_flag.as_str(), "--out-key-file") || str_eq(file_flag.as_str(), "-o") {
        key_group = GroupVernamKey { key_file: None, out_key_file: Some(path.clone()) };
    } else {
        return None;
    }
    match read_mode_flag(mode_flag.as_str()) {
        Some(mode) => Some((key_group, mode)),
        None => None,
    }
}

/// Read a command line (the arguments after the program name). Accepts
/// exactly the lists `valid_args` describes and returns their reading;
/// everything else is a usage error.
pub fn parse(args: &Vec<String>) -> (r: Result<Cli, CliError>)
    ensures
        r matches Ok(cli) <==> valid_args(args.deep_view()),
        r matches Ok(cli) ==> cli_matches(cli, args.deep_view()),
        r matches Err(e) ==> e == CliError::Usage,
{
    let ghost a = args.deep_view();
    proof {
        lemma_flags_distinct();
        assert(a.len() == args@.len());
        assert(forall|i: int| 0 <= i < args@.len() ==> a[i] == #[trigger] args@[i]@);
    }
    if args.len() == 1 {
        if str_eq(args[0].as_str(), "cryptanalysis") {
            return Ok(Cli { algorithm: Commands::Cryptanalysis });
        }
        return Err(CliError::Usage);
    }
    if args.len() != 4 {
        return Err(CliError::Usage);
    }
    if str_eq(args[0].as_str(), "cesar") {
        match read_cesar_tail(&args[1], &args[2], &args[3]) {
            Some((key, mode)) => {
                assert(valid_cesar_args(a));
                return Ok(Cli { algorithm: Commands::Cesar { key, mode } });
            },
            None => {},
        }
        match read_mode_flag(args[1].as_str()) {
            Some(_) => {},
            None => {
                return Err(CliError::Usage);
            },
        }
        match read_cesar_tail(&args[2], &args[3], &args[1]) {
            Some((key, mode)) => {
                assert(valid_cesar_args(a));
                return Ok(Cli { algorithm: Commands::Cesar { key, mode } });
            },
            None => {
                return Err(CliError::Usage);
            },
        }
    } else if str_eq(args[0].as_str(), "vernam") {
        match read_vernam_tail(&args[1], &args[2], &args[3]) {
            Some((key_group, mode)) => {
                assert(valid_vernam_args(a));
                return Ok(Cli { algorithm: Commands::Vernam { key_group, mode } });
            },
            None => {},
        }
        match read_mode_flag(args[1].as_str()) {
            Some(_) => {},
            None => {
                return Err(CliError::Usage);
            },
        }
        match read_vernam_tail(&args[2], &args[3], &args[1]) {
            Some((key_group, mode)) => {
                assert(valid_vernam_args(a));
                return Ok(Cli { algorithm: Commands::Vernam { key_group, mode } });
            },
            None => {
                return Err(CliError::Usage);
            },
        }
    } else {
        return Err(CliError::Usage);
    }
}

} // verus!
