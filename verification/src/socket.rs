//! Where the host listens.

use vstd::prelude::*;

use crate::text::{decimal_text, law_numeral_stands_for_its_number, number_of, push_decimal};

verus! {

/// Who may use the socket: its owner, for reading and writing.
pub const SOCKET_MODE: u32 = 0o600;

/// The path of the socket of the given user.
pub open spec fn socket_text(uid: u32) -> Seq<char> {
    "/tmp/.rexec-"@ + decimal_text(uid as nat)
}

/// `nix::unistd::Uid::current`: the user that the process runs as, which is up to
/// the operating system.
#[verifier::external_body]
pub fn current_uid() -> (r: u32) {
    nix::unistd::Uid::current().as_raw()
}

/// The path of the socket of the given user.
pub fn socket_path_for(uid: u32) -> (r: String)
    ensures
        r@ == socket_text(uid),
{
    let mut path = "/tmp/.rexec-".to_owned();
    push_decimal(&mut path, uid as u64);
    path
}

/// The path of the socket of the user that the process runs as.
pub fn socket_path() -> (r: String)
    ensures
        exists|uid: u32| #[trigger]
            call_ensures(current_uid, (), uid) && r@ == socket_text(uid),
{
    socket_path_for(current_uid())
}

/// Different users have different sockets.
pub proof fn law_sockets_are_per_user(a: u32, b: u32)
    requires
        socket_text(a) == socket_text(b),
    ensures
        a == b,
{
    let prefix = "/tmp/.rexec-"@;
    let n = prefix.len() as int;
    assert(socket_text(a).skip(n) =~= decimal_text(a as nat));
    assert(socket_text(b).skip(n) =~= decimal_text(b as nat));
    lemma_numerals_differ(a as nat, b as nat);
}

proof fn lemma_numerals_differ(a: nat, b: nat)
    requires
        decimal_text(a) == decimal_text(b),
    ensures
        a == b,
    decreases a,
{
    lemma_numeral_ends(a);
    lemma_numeral_ends(b);
    if a >= 10 && b >= 10 {
        assert(decimal_text(a).drop_last() =~= decimal_text(a / 10));
        assert(decimal_text(b).drop_last() =~= decimal_text(b / 10));
        lemma_numerals_differ(a / 10, b / 10);
    } else if a >= 10 {
        lemma_numeral_ends(a / 10);
    } else if b >= 10 {
        lemma_numeral_ends(b / 10);
    }
}

proof fn lemma_numeral_ends(n: nat)
    ensures
        decimal_text(n).len() >= 1,
        (decimal_text(n).last() as u32) == 0x30 + n % 10,
{
    assert(n % 10 < 10);
    assert((crate::text::digit(n % 10) as u32) == 0x30 + n % 10);
}

/// The socket of a user has the user's number, in decimal digits, at the end of its name.
pub proof fn law_socket_has_the_number_of_its_user(uid: u32, path: String)
    requires
        call_ensures(socket_path_for, (uid,), path),
    ensures
        exists|digits: Seq<char>|
            {
                &&& path@ == #[trigger] ("/tmp/.rexec-"@ + digits)
                &&& number_of(digits) == uid
                &&& forall|i: int| 0 <= i < digits.len() ==> '0' <= #[trigger] digits[i] <= '9'
                &&& digits[0] == '0' ==> uid == 0
            },
        SOCKET_MODE == 0o600,
{
    law_numeral_stands_for_its_number(uid as nat);
}

} // verus!
