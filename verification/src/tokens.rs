//! The score and certificate tokens of a verdict. They are display texts that
//! embed the topic, the number of correct answers and a random number; they
//! prove nothing.

use crate::random::random_u32;
use crate::ratio::Ratio;
use crate::text::{
    decimal, decimal_string, hex_string, hexadecimal, zero_padded, zero_padded_string,
};
use vstd::prelude::*;
use vstd::string::*;

verus! {

/// The upper-case form of a text as `str::to_uppercase` gives it: each
/// character replaced by its Unicode upper-case mapping.
pub uninterp spec fn uppercase(s: Seq<char>) -> Seq<char>;

/// Calls `str::to_uppercase`, which depends on the text alone; the contract
/// gives its result the name `uppercase` and states nothing else of it.
#[verifier::external_body]
pub(crate) fn to_uppercase(s: &str) -> (r: String)
    ensures
        r@ == uppercase(s@),
{
    s.to_uppercase()
}

/// The score token: `enc_`, the topic, the number of correct answers and the
/// salt in hexadecimal, joined by underscores.
pub open spec fn score_token(topic: Seq<char>, correct_count: nat, salt: u32) -> Seq<char> {
    "enc_"@ + topic + "_"@ + decimal(correct_count) + "_"@ + hexadecimal(salt as nat)
}

/// The certificate token: `CERT_`, the topic in upper case, the number of
/// correct answers, the severity code in at least three decimal digits and the
/// certificate number in at least eight hexadecimal digits, joined by
/// underscores.
pub open spec fn certificate_token(
    upper_topic: Seq<char>,
    correct_count: nat,
    severity: u32,
    number: u32,
) -> Seq<char> {
    "CERT_"@ + upper_topic + "_"@ + decimal(correct_count) + "_"@ + zero_padded(
        decimal(severity as nat),
        3,
    ) + "_"@ + zero_padded(hexadecimal(number as nat), 8)
}

/// The severity code of a cheating likelihood: the likelihood in hundredths,
/// rounded down.
pub open spec fn severity_of(likelihood: Ratio) -> int {
    likelihood.num * 100 / (likelihood.den as int)
}

/// A likelihood: a fraction between 0 and 1 whose parts fit in 64 bits.
pub open spec fn is_likelihood(likelihood: Ratio) -> bool {
    &&& likelihood.wf()
    &&& likelihood.num <= likelihood.den
    &&& likelihood.den <= u64::MAX
}

/// Computes the severity code of a cheating likelihood.
pub fn severity_code(likelihood: Ratio) -> (code: u32)
    requires
        is_likelihood(likelihood),
    ensures
        code == severity_of(likelihood),
        code <= 100,
{
    let scaled = likelihood.num * 100;
    proof {
        let n = likelihood.num as int;
        let d = likelihood.den as int;
        vstd::arithmetic::div_mod::lemma_div_is_ordered(n * 100, d * 100, d);
        vstd::arithmetic::div_mod::lemma_div_multiples_vanish(100, d);
        assert(d * 100 == 100 * d);
        vstd::arithmetic::div_mod::lemma_div_pos_is_pos(n * 100, d);
    }
    (scaled / likelihood.den) as u32
}

/// Builds the score token for the given salt.
pub fn score_text(topic: &str, correct_count: usize, salt: u32) -> (token: String)
    ensures
        token@ == score_token(topic@, correct_count as nat, salt),
{
    let mut token = String::from_str("enc_");
    token.append(topic);
    token.append("_");
    token.append(decimal_string(correct_count as u64).as_str());
    token.append("_");
    token.append(hex_string(salt as u64).as_str());
    token
}

/// Builds the certificate token for a topic already in upper case and the
/// given certificate number.
pub fn certificate_text(upper_topic: &str, correct_count: usize, severity: u32, number: u32) -> (token:
    String)
    ensures
        token@ == certificate_token(upper_topic@, correct_count as nat, severity, number),
{
    let mut token = String::from_str("CERT_");
    token.append(upper_topic);
    token.append("_");
    token.append(decimal_string(correct_count as u64).as_str());
    token.append("_");
    token.append(zero_padded_string(decimal_string(severity as u64).as_str(), 3).as_str());
    token.append("_");
    token.append(zero_padded_string(hex_string(number as u64).as_str(), 8).as_str());
    token
}

/// Makes a score token with a random salt.
pub fn generate_encrypted_score(correct_count: usize, quiz_type: &str) -> (token: String)
    ensures
        exists|salt: u32| token@ == #[trigger] score_token(quiz_type@, correct_count as nat, salt),
{
    let salt = random_u32();
    let token = score_text(quiz_type, correct_count, salt);
    assert(token@ == score_token(quiz_type@, correct_count as nat, salt));
    token
}

/// Makes a certificate token with a random certificate number.
pub fn generate_certificate_id(
    correct_count: usize,
    quiz_type: &str,
    cheating_likelihood: Ratio,
) -> (token: String)
    requires
        is_likelihood(cheating_likelihood),
    ensures
        exists|number: u32|
            token@ == #[trigger] certificate_token(
                uppercase(quiz_type@),
                correct_count as nat,
                severity_of(cheating_likelihood) as u32,
                number,
            ),
{
    let number = random_u32();
    let severity = severity_code(cheating_likelihood);
    let upper = to_uppercase(quiz_type);
    let token = certificate_text(upper.as_str(), correct_count, severity, number);
    assert(token@ == certificate_token(
        uppercase(quiz_type@),
        correct_count as nat,
        severity_of(cheating_likelihood) as u32,
        number,
    ));
    token
}

} // verus!
