//! Transport naming: both peers derive the same pair of FIFO paths,
//! `/tmp/messageipc_<name>_<pid>_<direction>`, from the channel name and the
//! server's process id. The server is told its own pid by its caller; the
//! client must be told the server's pid out of band. The two directions get
//! distinct suffixes so that the two unidirectional pipes never collide.

use vstd::prelude::*;
use vstd::string::StringExecFns;

verus! {

/// The decimal digit character for one digit value.
pub open spec fn digit_char(d: nat) -> char {
    if d == 0 {
        '0'
    } else if d == 1 {
        '1'
    } else if d == 2 {
        '2'
    } else if d == 3 {
        '3'
    } else if d == 4 {
        '4'
    } else if d == 5 {
        '5'
    } else if d == 6 {
        '6'
    } else if d == 7 {
        '7'
    } else if d == 8 {
        '8'
    } else {
        '9'
    }
}

/// The decimal digits of a number, most significant first, with no sign and
/// no leading zero (zero itself is the single digit `0`).
pub open spec fn dec_chars(n: nat) -> Seq<char>
    decreases n,
{
    if n < 10 {
        seq![digit_char(n)]
    } else {
        dec_chars(n / 10) + seq![digit_char(n % 10)]
    }
}

/// The FIFO path both peers compute for one direction of a channel:
/// a fixed namespace prefix, the channel name, the server's pid, and the
/// direction suffix.
pub open spec fn path_chars(name: Seq<char>, pid: nat, to_server: bool) -> Seq<char> {
    "/tmp/messageipc_"@ + name + "_"@ + dec_chars(pid) + (if to_server {
        "_toserver"@
    } else {
        "_toclient"@
    })
}

/// The one-character string for a decimal digit.
fn digit_str(d: u32) -> (s: &'static str)
    requires
        d < 10,
    ensures
        s@ == seq![digit_char(d as nat)],
{
    match d {
        0 => {
            proof {
                reveal_strlit("0");
                assert("0"@ =~= seq![digit_char(0)]);
            }
            "0"
        },
        1 => {
            proof {
                reveal_strlit("1");
                assert("1"@ =~= seq![digit_char(1)]);
            }
            "1"
        },
        2 => {
            proof {
                reveal_strlit("2");
                assert("2"@ =~= seq![digit_char(2)]);
            }
            "2"
        },
        3 => {
            proof {
                reveal_strlit("3");
                assert("3"@ =~= seq![digit_char(3)]);
            }
            "3"
        },
        4 => {
            proof {
                reveal_strlit("4");
                assert("4"@ =~= seq![digit_char(4)]);
            }
            "4"
        },
        5 => {
            proof {
                reveal_strlit("5");
                assert("5"@ =~= seq![digit_char(5)]);
            }
            "5"
        },
        6 => {
            proof {
                reveal_strlit("6");
                assert("6"@ =~= seq![digit_char(6)]);
            }
            "6"
        },
        7 => {
            proof {
                reveal_strlit("7");
                assert("7"@ =~= seq![digit_char(7)]);
            }
            "7"
        },
        8 => {
            proof {
                reveal_strlit("8");
                assert("8"@ =~= seq![digit_char(8)]);
            }
            "8"
        },
        _ => {
            proof {
                reveal_strlit("9");
                assert("9"@ =~= seq![digit_char(9)]);
            }
            "9"
        },
    }
}

/// The decimal form of a number, as the digits of `dec_chars`.
pub fn decimal_string(n: u32) -> (s: String)
    ensures
        s@ == dec_chars(n as nat),
    decreases n,
{
    if n < 10 {
        String::from_str(digit_str(n))
    } else {
        let mut s = decimal_string(n / 10);
        s.append(digit_str(n % 10));
        s
    }
}

/// One direction's FIFO path for a channel, exactly as `path_chars` lays it
/// out.
pub fn fifo_path(name: &str, pid: u32, to_server: bool) -> (p: String)
    ensures
        p@ == path_chars(name@, pid as nat, to_server),
{
    let mut p = String::from_str("/tmp/messageipc_");
    p.append(name);
    p.append("_");
    let digits = decimal_string(pid);
    p.append(digits.as_str());
    if to_server {
        p.append("_toserver");
    } else {
        p.append("_toclient");
    }
    proof {
        assert(p@ =~= path_chars(name@, pid as nat, to_server));
    }
    p
}

/// The path the server reads from: the client-to-server direction.
pub open spec fn server_read_path(name: Seq<char>, pid: nat) -> Seq<char> {
    path_chars(name, pid, true)
}

/// The path the server writes to: the server-to-client direction.
pub open spec fn server_write_path(name: Seq<char>, pid: nat) -> Seq<char> {
    path_chars(name, pid, false)
}

/// The path the client reads from: the server-to-client direction.
pub open spec fn client_read_path(name: Seq<char>, pid: nat) -> Seq<char> {
    path_chars(name, pid, false)
}

/// The path the client writes to: the client-to-server direction.
pub open spec fn client_write_path(name: Seq<char>, pid: nat) -> Seq<char> {
    path_chars(name, pid, true)
}

/// The server's transport paths, `(read, write)`: the server reads what
/// flows toward it and writes what flows toward the client.
pub fn server_paths(name: &str, pid: u32) -> (r: (String, String))
    ensures
        r.0@ == server_read_path(name@, pid as nat),
        r.1@ == server_write_path(name@, pid as nat),
{
    (fifo_path(name, pid, true), fifo_path(name, pid, false))
}

/// The client's transport paths, `(read, write)`, computed from the server's
/// pid: the client reads what flows toward it and writes toward the server.
pub fn client_paths(name: &str, pid: u32) -> (r: (String, String))
    ensures
        r.0@ == client_read_path(name@, pid as nat),
        r.1@ == client_write_path(name@, pid as nat),
{
    (fifo_path(name, pid, false), fifo_path(name, pid, true))
}

/// Both peers of a channel compute identical transport names, crosswise: the
/// pipe the server reads is the pipe the client writes, and the pipe the
/// server writes is the pipe the client reads.
pub proof fn lemma_peer_names_match(name: Seq<char>, pid: nat)
    ensures
        server_read_path(name, pid) == client_write_path(name, pid),
        server_write_path(name, pid) == client_read_path(name, pid),
{
}

/// A decimal digit character.
pub open spec fn is_digit(c: char) -> bool {
    c == '0' || c == '1' || c == '2' || c == '3' || c == '4' || c == '5' || c == '6' || c == '7'
        || c == '8' || c == '9'
}

/// A decimal form is never empty and holds digits alone; in particular it
/// never holds the `_` that separates the path's fields.
pub proof fn lemma_dec_chars_digits(n: nat)
    ensures
        dec_chars(n).len() >= 1,
        forall|i: int| 0 <= i < dec_chars(n).len() ==> is_digit(#[trigger] dec_chars(n)[i]),
    decreases n,
{
    if n >= 10 {
        lemma_dec_chars_digits(n / 10);
    }
}

/// Two numbers with the same decimal form are the same number.
pub proof fn lemma_dec_chars_injective(a: nat, b: nat)
    requires
        dec_chars(a) == dec_chars(b),
    ensures
        a == b,
    decreases a,
{
    if a < 10 && b < 10 {
        assert(dec_chars(a)[0] == digit_char(a));
        assert(dec_chars(b)[0] == digit_char(b));
    } else if a < 10 && b >= 10 {
        lemma_dec_chars_digits(b / 10);
        assert(dec_chars(b).len() >= 2);
        assert(dec_chars(a).len() == 1);
    } else if a >= 10 && b < 10 {
        lemma_dec_chars_digits(a / 10);
        assert(dec_chars(a).len() >= 2);
        assert(dec_chars(b).len() == 1);
    } else {
        let da = dec_chars(a / 10);
        let db = dec_chars(b / 10);
        assert(dec_chars(a) == da + seq![digit_char(a % 10)]);
        assert(dec_chars(b) == db + seq![digit_char(b % 10)]);
        assert(da.len() == db.len());
        assert(da =~= db) by {
            assert forall|i: int| 0 <= i < da.len() implies da[i] == db[i] by {
                assert(dec_chars(a)[i] == da[i]);
                assert(dec_chars(b)[i] == db[i]);
            }
        }
        lemma_dec_chars_injective(a / 10, b / 10);
        assert(dec_chars(a)[da.len() as int] == digit_char(a % 10));
        assert(dec_chars(b)[db.len() as int] == digit_char(b % 10));
        assert(a % 10 == b % 10);
    }
}

/// Transport names are unique per channel name and server pid: two channels
/// whose names or server pids differ never compute the same path for a
/// direction, so concurrent unrelated channels cannot collide.
pub proof fn lemma_paths_unique(n1: Seq<char>, p1: nat, n2: Seq<char>, p2: nat, d: bool)
    requires
        path_chars(n1, p1, d) == path_chars(n2, p2, d),
    ensures
        n1 == n2,
        p1 == p2,
{
    reveal_strlit("/tmp/messageipc_");
    reveal_strlit("_");
    reveal_strlit("_toserver");
    reveal_strlit("_toclient");
    let prefix = "/tmp/messageipc_"@;
    let sep = "_"@;
    let suffix = if d {
        "_toserver"@
    } else {
        "_toclient"@
    };
    let d1 = dec_chars(p1);
    let d2 = dec_chars(p2);
    lemma_dec_chars_digits(p1);
    lemma_dec_chars_digits(p2);
    let s = path_chars(n1, p1, d);
    let len = s.len() as int;
    // the digit runs of both decompositions end where the suffix starts; if
    // one run were shorter, the separator before it would land inside the
    // other run, and the separator is no digit
    assert(s[len - 9 - d1.len() - 1] == sep[0]);
    assert(s[len - 9 - d2.len() - 1] == sep[0]);
    assert(forall|k: int| 0 <= k < d1.len() ==> s[len - 9 - d1.len() + k] == d1[k]);
    assert(forall|k: int| 0 <= k < d2.len() ==> s[len - 9 - d2.len() + k] == d2[k]);
    if d1.len() < d2.len() {
        let j = len - 9 - d1.len() - 1;
        assert(s[j] == d2[j - (len - 9 - d2.len())]);
        assert(is_digit(s[j]));
        assert(false);
    }
    if d2.len() < d1.len() {
        let j = len - 9 - d2.len() - 1;
        assert(s[j] == d1[j - (len - 9 - d1.len())]);
        assert(is_digit(s[j]));
        assert(false);
    }
    assert(d1 =~= d2) by {
        assert forall|k: int| 0 <= k < d1.len() implies d1[k] == d2[k] by {
            assert(s[len - 9 - d1.len() + k] == d1[k]);
            assert(s[len - 9 - d2.len() + k] == d2[k]);
        }
    }
    lemma_dec_chars_injective(p1, p2);
    assert(n1.len() == n2.len());
    assert(n1 =~= n2) by {
        assert forall|k: int| 0 <= k < n1.len() implies n1[k] == n2[k] by {
            assert(s[16 + k] == n1[k]);
            assert(s[16 + k] == n2[k]);
        }
    }
}

/// The two directions use two distinct addresses: no channel's
/// client-to-server pipe is any channel's server-to-client pipe.
pub proof fn lemma_direction_paths_distinct(n1: Seq<char>, p1: nat, n2: Seq<char>, p2: nat)
    ensures
        path_chars(n1, p1, true) != path_chars(n2, p2, false),
{
    reveal_strlit("_toserver");
    reveal_strlit("_toclient");
    let a = path_chars(n1, p1, true);
    let b = path_chars(n2, p2, false);
    assert(a[a.len() - 1] == 'r');
    assert(b[b.len() - 1] == 't');
}

} // verus!
