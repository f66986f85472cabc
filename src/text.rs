use vstd::prelude::*;

verus! {

/// The ASCII digit for `d < 10`.
pub open spec fn digit_char(d: nat) -> char {
    seq!['0', '1', '2', '3', '4', '5', '6', '7', '8', '9'][d as int]
}

/// The decimal representation of `n`, without leading zeros.
pub open spec fn decimal(n: nat) -> Seq<char>
    decreases n,
{
    if n < 10 {
        seq![digit_char(n)]
    } else {
        decimal(n / 10).push(digit_char(n % 10))
    }
}

/// The canonical text that the authority signs for a handle registration:
/// `identity,platform,handle,proof,deadline`.
pub open spec fn registration_text(
    identity: Seq<char>,
    platform: Seq<char>,
    handle: Seq<char>,
    proof: Seq<char>,
    deadline: nat,
) -> Seq<char> {
    identity + seq![','] + platform + seq![','] + handle + seq![','] + proof + seq![',']
        + decimal(deadline)
}

/// The canonical text that the authority signs for a scalar update:
/// `identity,value,deadline`.
pub open spec fn scalar_text(identity: Seq<char>, value: nat, deadline: nat) -> Seq<char> {
    identity + seq![','] + decimal(value) + seq![','] + decimal(deadline)
}

/// `s` holds no comma.
pub open spec fn comma_free(s: Seq<char>) -> bool {
    forall|i: int| 0 <= i < s.len() ==> s[i] != ','
}

proof fn lemma_digit_injective(a: nat, b: nat)
    requires
        a < 10,
        b < 10,
        digit_char(a) == digit_char(b),
    ensures
        a == b,
{
    let ds = seq!['0', '1', '2', '3', '4', '5', '6', '7', '8', '9'];
    assert(ds[0] == '0' && ds[1] == '1' && ds[2] == '2' && ds[3] == '3' && ds[4] == '4');
    assert(ds[5] == '5' && ds[6] == '6' && ds[7] == '7' && ds[8] == '8' && ds[9] == '9');
}

proof fn lemma_decimal_shape(n: nat)
    ensures
        decimal(n).len() >= 1,
        n >= 10 ==> decimal(n).len() >= 2,
        comma_free(decimal(n)),
    decreases n,
{
    let ds = seq!['0', '1', '2', '3', '4', '5', '6', '7', '8', '9'];
    assert(ds[0] == '0' && ds[1] == '1' && ds[2] == '2' && ds[3] == '3' && ds[4] == '4');
    assert(ds[5] == '5' && ds[6] == '6' && ds[7] == '7' && ds[8] == '8' && ds[9] == '9');
    if n >= 10 {
        lemma_decimal_shape(n / 10);
    }
}

/// Distinct numbers have distinct decimal representations.
pub proof fn lemma_decimal_injective(a: nat, b: nat)
    requires
        decimal(a) == decimal(b),
    ensures
        a == b,
    decreases a,
{
    lemma_decimal_shape(a);
    lemma_decimal_shape(b);
    if a < 10 && b < 10 {
        assert(decimal(a)[0] == digit_char(a));
        assert(decimal(b)[0] == digit_char(b));
        lemma_digit_injective(a, b);
    } else if a >= 10 && b >= 10 {
        assert(decimal(a).drop_last() =~= decimal(a / 10));
        assert(decimal(b).drop_last() =~= decimal(b / 10));
        assert(decimal(a).last() == digit_char(a % 10));
        assert(decimal(b).last() == digit_char(b % 10));
        lemma_digit_injective(a % 10, b % 10);
        lemma_decimal_injective(a / 10, b / 10);
    }
}

/// Two texts that each start with a comma-free field and a comma split
/// there alike.
proof fn lemma_split_first_comma(x1: Seq<char>, r1: Seq<char>, x2: Seq<char>, r2: Seq<char>)
    requires
        comma_free(x1),
        comma_free(x2),
        x1 + seq![','] + r1 == x2 + seq![','] + r2,
    ensures
        x1 == x2,
        r1 == r2,
{
    let t = x1 + seq![','] + r1;
    if x1.len() < x2.len() {
        assert(t[x1.len() as int] == ',');
        assert((x2 + seq![','] + r2)[x1.len() as int] == x2[x1.len() as int]);
    } else if x2.len() < x1.len() {
        assert((x2 + seq![','] + r2)[x2.len() as int] == ',');
        assert(t[x2.len() as int] == x1[x2.len() as int]);
    } else {
        assert(x1 =~= t.subrange(0, x1.len() as int));
        assert(x2 =~= (x2 + seq![','] + r2).subrange(0, x2.len() as int));
        assert(r1 =~= t.subrange(x1.len() as int + 1, t.len() as int));
        assert(r2 =~= (x2 + seq![','] + r2).subrange(x2.len() as int + 1, t.len() as int));
    }
}

/// Two texts that each end with a comma and a decimal number split there
/// alike.
proof fn lemma_split_last_comma(y1: Seq<char>, d1: nat, y2: Seq<char>, d2: nat)
    requires
        y1 + seq![','] + decimal(d1) == y2 + seq![','] + decimal(d2),
    ensures
        y1 == y2,
        d1 == d2,
{
    lemma_decimal_shape(d1);
    lemma_decimal_shape(d2);
    let t = y1 + seq![','] + decimal(d1);
    let u = y2 + seq![','] + decimal(d2);
    let e1 = decimal(d1);
    let e2 = decimal(d2);
    if e1.len() < e2.len() {
        assert(t[t.len() - 1 - e1.len()] == ',');
        assert(u[t.len() - 1 - e1.len()] == e2[e2.len() - 1 - e1.len()]);
    } else if e2.len() < e1.len() {
        assert(u[u.len() - 1 - e2.len()] == ',');
        assert(t[u.len() - 1 - e2.len()] == e1[e1.len() - 1 - e2.len()]);
    } else {
        assert(y1 =~= t.subrange(0, y1.len() as int));
        assert(y2 =~= u.subrange(0, y2.len() as int));
        assert(e1 =~= t.subrange(y1.len() as int + 1, t.len() as int));
        assert(e2 =~= u.subrange(y2.len() as int + 1, u.len() as int));
        lemma_decimal_injective(d1, d2);
    }
}

/// The registration text determines the deadline, and, where identity,
/// platform and handle hold no comma, every other field too.
pub proof fn lemma_registration_text_injective(
    i1: Seq<char>,
    p1: Seq<char>,
    h1: Seq<char>,
    q1: Seq<char>,
    d1: nat,
    i2: Seq<char>,
    p2: Seq<char>,
    h2: Seq<char>,
    q2: Seq<char>,
    d2: nat,
)
    requires
        registration_text(i1, p1, h1, q1, d1) == registration_text(i2, p2, h2, q2, d2),
    ensures
        d1 == d2,
        comma_free(i1) && comma_free(p1) && comma_free(h1) && comma_free(i2) && comma_free(p2)
            && comma_free(h2) ==> i1 == i2 && p1 == p2 && h1 == h2 && q1 == q2,
{
    let c = seq![','];
    let y1 = i1 + c + p1 + c + h1 + c + q1;
    let y2 = i2 + c + p2 + c + h2 + c + q2;
    assert(registration_text(i1, p1, h1, q1, d1) =~= y1 + c + decimal(d1));
    assert(registration_text(i2, p2, h2, q2, d2) =~= y2 + c + decimal(d2));
    lemma_split_last_comma(y1, d1, y2, d2);
    if comma_free(i1) && comma_free(p1) && comma_free(h1) && comma_free(i2) && comma_free(p2)
        && comma_free(h2) {
        assert(y1 =~= i1 + c + (p1 + c + (h1 + c + q1)));
        assert(y2 =~= i2 + c + (p2 + c + (h2 + c + q2)));
        lemma_split_first_comma(i1, p1 + c + (h1 + c + q1), i2, p2 + c + (h2 + c + q2));
        assert(p1 + c + (h1 + c + q1) =~= p1 + c + (h1 + c + q1));
        lemma_split_first_comma(p1, h1 + c + q1, p2, h2 + c + q2);
        lemma_split_first_comma(h1, q1, h2, q2);
    }
}

/// The text of a scalar update determines the deadline and the value, and,
/// where the identity holds no comma, the identity too.
pub proof fn lemma_scalar_text_injective(i1: Seq<char>, v1: nat, d1: nat, i2: Seq<char>, v2: nat, d2: nat)
    requires
        scalar_text(i1, v1, d1) == scalar_text(i2, v2, d2),
    ensures
        d1 == d2,
        v1 == v2,
        comma_free(i1) && comma_free(i2) ==> i1 == i2,
{
    let c = seq![','];
    lemma_split_last_comma(i1 + c + decimal(v1), d1, i2 + c + decimal(v2), d2);
    lemma_split_last_comma(i1, v1, i2, v2);
}

fn digit_str(d: u128) -> (r: &'static str)
    requires
        d < 10,
    ensures
        r@ == seq![digit_char(d as nat)],
{
    proof {
        reveal_strlit("0");
        reveal_strlit("1");
        reveal_strlit("2");
        reveal_strlit("3");
        reveal_strlit("4");
        reveal_strlit("5");
        reveal_strlit("6");
        reveal_strlit("7");
        reveal_strlit("8");
        reveal_strlit("9");
    }
    if d == 0 {
        "0"
    } else if d == 1 {
        "1"
    } else if d == 2 {
        "2"
    } else if d == 3 {
        "3"
    } else if d == 4 {
        "4"
    } else if d == 5 {
        "5"
    } else if d == 6 {
        "6"
    } else if d == 7 {
        "7"
    } else if d == 8 {
        "8"
    } else {
        "9"
    }
}

/// Writes `n` in decimal.
pub fn decimal_string(n: u128) -> (r: String)
    ensures
        r@ == decimal(n as nat),
    decreases n,
{
    if n < 10 {
        String::from_str(digit_str(n))
    } else {
        let mut s = decimal_string(n / 10);
        s.append(digit_str(n % 10));
        s
    }
}

fn push_comma(s: &mut String)
    ensures
        final(s)@ == old(s)@ + seq![','],
{
    proof {
        reveal_strlit(",");
    }
    s.append(",");
}

/// Builds the message signed for a handle registration.
pub fn registration_message(
    identity: &String,
    platform: &String,
    handle: &String,
    proof: &String,
    deadline: u64,
) -> (r: String)
    ensures
        r@ == registration_text(identity@, platform@, handle@, proof@, deadline as nat),
{
    let mut m = identity.clone();
    push_comma(&mut m);
    m.append(platform.as_str());
    push_comma(&mut m);
    m.append(handle.as_str());
    push_comma(&mut m);
    m.append(proof.as_str());
    push_comma(&mut m);
    let d = decimal_string(deadline as u128);
    m.append(d.as_str());
    m
}

/// Builds the message signed for an access-key-count or account-age update.
pub fn scalar_message(identity: &String, value: u128, deadline: u64) -> (r: String)
    ensures
        r@ == scalar_text(identity@, value as nat, deadline as nat),
{
    let mut m = identity.clone();
    push_comma(&mut m);
    let v = decimal_string(value);
    m.append(v.as_str());
    push_comma(&mut m);
    let d = decimal_string(deadline as u128);
    m.append(d.as_str());
    m
}

} // verus!
