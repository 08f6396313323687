use vstd::prelude::*;

verus! {

/// A form field as text: a pair of a key and a value.
pub type FieldView = (Seq<char>, Seq<char>);

/// The (key, value) pairs of an `application/x-www-form-urlencoded` body, percent-decoded, in
/// the order in which they stand in the body.
pub uninterp spec fn form_pairs(body: Seq<u8>) -> Seq<FieldView>;

pub open spec fn pairs_view(pairs: Seq<(String, String)>) -> Seq<FieldView> {
    pairs.map_values(|p: (String, String)| (p.0@, p.1@))
}

/// Relies on form_urlencoded::parse: splits the body at `&` and `=`, drops empty
/// sequences, and percent-decodes each key and value; an empty body holds no pair.
#[verifier::external_body]
fn parse_form(body: &[u8]) -> (r: Vec<(String, String)>)
    ensures
        pairs_view(r@) == form_pairs(body@),
        body@.len() == 0 ==> r@.len() == 0,
{
    form_urlencoded::parse(body).into_owned().collect()
}

pub open spec fn name_key() -> Seq<char> {
    seq!['n', 'a', 'm', 'e']
}

pub open spec fn email_key() -> Seq<char> {
    seq!['e', 'm', 'a', 'i', 'l']
}

/// How many pairs carry `key`.
pub open spec fn key_count(pairs: Seq<FieldView>, key: Seq<char>) -> nat
    decreases pairs.len(),
{
    if pairs.len() == 0 {
        0
    } else {
        key_count(pairs.drop_last(), key) + if pairs.last().0 == key {
            1nat
        } else {
            0nat
        }
    }
}

/// The value of the first pair that carries `key` (empty where there is none).
pub open spec fn value_of(pairs: Seq<FieldView>, key: Seq<char>) -> Seq<char>
    decreases pairs.len(),
{
    if pairs.len() == 0 {
        Seq::empty()
    } else if key_count(pairs.drop_last(), key) > 0 {
        value_of(pairs.drop_last(), key)
    } else if pairs.last().0 == key {
        pairs.last().1
    } else {
        Seq::empty()
    }
}

/// The value that `key` has among `pairs`, if any pair carries it: the first one.
pub fn lookup(pairs: &Vec<(String, String)>, key: &str) -> (r: Option<String>)
    ensures
        r is Some <==> key_count(pairs_view(pairs@), key@) > 0,
        r matches Some(v) ==> v@ == value_of(pairs_view(pairs@), key@),
{
    let ghost all = pairs_view(pairs@);
    let k = String::from_str(key);
    let mut i: usize = 0;
    while i < pairs.len()
        invariant
            i <= pairs@.len(),
            all == pairs_view(pairs@),
            k@ == key@,
            key_count(all.take(i as int), key@) == 0,
        decreases pairs@.len() - i,
    {
        let pair = &pairs[i];
        proof {
            let t = all.take(i as int + 1);
            assert(t.drop_last() =~= all.take(i as int));
            assert(t.last() == (pair.0@, pair.1@));
        }
        if pair.0 == k {
            let v = pair.1.clone();
            proof {
                lemma_found_first(all, key@, i as int);
            }
            return Some(v);
        }
        i = i + 1;
    }
    proof {
        assert(all.take(pairs@.len() as int) =~= all);
    }
    None
}

/// A key that first stands at `i` is counted, and has the value of that pair.
proof fn lemma_found_first(pairs: Seq<FieldView>, key: Seq<char>, i: int)
    requires
        0 <= i < pairs.len(),
        key_count(pairs.take(i), key) == 0,
        pairs[i].0 == key,
    ensures
        key_count(pairs, key) > 0,
        value_of(pairs, key) == pairs[i].1,
    decreases pairs.len(),
{
    if pairs.len() == i + 1 {
        assert(pairs.drop_last() =~= pairs.take(i));
    } else {
        let d = pairs.drop_last();
        assert(d.take(i) =~= pairs.take(i));
        lemma_found_first(d, key, i);
    }
}

/// Why a body does not decode as a subscription form.
#[derive(Clone, Copy, Debug, PartialEq, Eq, Structural)]
pub enum FormError {
    MissingEmail,
    MissingName,
    DuplicateEmail,
    DuplicateName,
}

/// The decoded payload of a subscription form.
pub struct SubscriptionRequest {
    pub name: String,
    pub email: String,
}

/// The form's meaning: each of `name` and `email` must stand exactly once (other keys are
/// ignored); then the result is `(name, email)`.
pub open spec fn decode_fields(pairs: Seq<FieldView>) -> Result<(Seq<char>, Seq<char>), FormError> {
    if key_count(pairs, email_key()) == 0 {
        Err(FormError::MissingEmail)
    } else if key_count(pairs, name_key()) == 0 {
        Err(FormError::MissingName)
    } else if key_count(pairs, email_key()) > 1 {
        Err(FormError::DuplicateEmail)
    } else if key_count(pairs, name_key()) > 1 {
        Err(FormError::DuplicateName)
    } else {
        Ok((value_of(pairs, name_key()), value_of(pairs, email_key())))
    }
}

pub open spec fn decoded_view(r: Result<SubscriptionRequest, FormError>) -> Result<
    (Seq<char>, Seq<char>),
    FormError,
> {
    match r {
        Ok(req) => Ok((req.name@, req.email@)),
        Err(e) => Err(e),
    }
}

/// The subscription form held by decoded pairs.
pub fn subscription_from_pairs(pairs: &Vec<(String, String)>) -> (r: Result<
    SubscriptionRequest,
    FormError,
>)
    ensures
        decoded_view(r) == decode_fields(pairs_view(pairs@)),
{
    proof {
        reveal_strlit("name");
        reveal_strlit("email");
    }
    let name_k = String::from_str("name");
    let email_k = String::from_str("email");
    let ghost all = pairs_view(pairs@);
    let mut names: usize = 0;
    let mut emails: usize = 0;
    let mut name = String::new();
    let mut email = String::new();
    let mut i: usize = 0;
    while i < pairs.len()
        invariant
            i <= pairs@.len(),
            all == pairs_view(pairs@),
            name_k@ == name_key(),
            email_k@ == email_key(),
            names as nat == key_count(all.take(i as int), name_key()),
            emails as nat == key_count(all.take(i as int), email_key()),
            name@ == value_of(all.take(i as int), name_key()),
            email@ == value_of(all.take(i as int), email_key()),
            names <= i,
            emails <= i,
        decreases pairs@.len() - i,
    {
        let pair = &pairs[i];
        proof {
            let t = all.take(i as int + 1);
            assert(t.drop_last() =~= all.take(i as int));
            assert(t.last() == (pair.0@, pair.1@));
        }
        if pair.0 == name_k {
            if names == 0 {
                name = pair.1.clone();
            }
            names = names + 1;
        }
        if pair.0 == email_k {
            if emails == 0 {
                email = pair.1.clone();
            }
            emails = emails + 1;
        }
        i = i + 1;
    }
    proof {
        assert(all.take(pairs@.len() as int) =~= all);
    }
    if emails == 0 {
        Err(FormError::MissingEmail)
    } else if names == 0 {
        Err(FormError::MissingName)
    } else if emails > 1 {
        Err(FormError::DuplicateEmail)
    } else if names > 1 {
        Err(FormError::DuplicateName)
    } else {
        Ok(SubscriptionRequest { name, email })
    }
}

/// Decodes a subscription form from a request body.
pub fn subscription_from_form(body: &[u8]) -> (r: Result<SubscriptionRequest, FormError>)
    ensures
        decoded_view(r) == decode_fields(form_pairs(body@)),
{
    let pairs = parse_form(body);
    subscription_from_pairs(&pairs)
}

} // verus!
