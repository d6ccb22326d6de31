use vstd::prelude::*;
use vstd::string::StrSliceExecFns;
use vstd::string::StringExecFns;

pub mod bus;
pub mod feed;
pub mod logger;
pub mod replay;
pub mod session;
pub mod util;
pub mod wire;

verus! {

/// Fixed acknowledgement text returned after application commands are registered.
pub fn format_register_response() -> (r: String)
    ensures
        r@ == "Registered application commands"@,
{
    String::from_str("Registered application commands")
}

/// Wraps a generated codename in the reply text shown to the user.
pub fn format_codename_response(codename: &str) -> (r: String)
    ensures
        r@ == "Your generated codename is:\n **"@ + codename@ + "!**"@,
{
    let mut r = String::from_str("Your generated codename is:\n **");
    r.append(codename);
    r.append("!**");
    r
}

/// Word lists that codenames are drawn from.
pub struct CodenameData {
    pub animals: Vec<String>,
    pub adjectives: Vec<String>,
}

/// Bot state shared between commands: the path to the command-history database.
pub struct BotState {
    pub db_path: String,
}

/// Holds the codename word lists once they are loaded. It is filled exactly
/// once: a second attempt to fill it fails and leaves the first contents in
/// place, so a lifecycle bug upstream is detected rather than hidden.
pub struct CodenameStore {
    data: Option<CodenameData>,
}

impl CodenameStore {
    /// The contents, if the store has been filled.
    pub closed spec fn spec_get(&self) -> Option<CodenameData> {
        self.data
    }

    pub fn new() -> (r: Self)
        ensures
            r.spec_get() is None,
    {
        CodenameStore { data: None }
    }

    /// Fills the store. Succeeds only on the first call; afterwards the
    /// argument is handed back unchanged and the stored data is kept.
    pub fn set(&mut self, d: CodenameData) -> (r: Result<(), CodenameData>)
        ensures
            old(self).spec_get() is None ==> r is Ok && final(self).spec_get() == Some(d),
            old(self).spec_get() is Some ==> r == Err::<(), CodenameData>(d) && *final(self)
                == *old(self),
    {
        if self.data.is_none() {
            self.data = Some(d);
            Ok(())
        } else {
            Err(d)
        }
    }

    pub fn get(&self) -> (r: Option<&CodenameData>)
        ensures
            match r {
                None => self.spec_get() is None,
                Some(d) => self.spec_get() == Some(*d),
            },
    {
        match &self.data {
            None => None,
            Some(d) => Some(d),
        }
    }
}

/// The uppercase mapping of a character, as `char::to_uppercase` yields it.
pub uninterp spec fn upper_of(c: char) -> Seq<char>;

/// Relies on char::to_uppercase: yields the Unicode uppercase mapping of the
/// character, one or more characters determined by the character alone.
#[verifier::external_body]
fn char_to_uppercase(c: char) -> (r: String)
    ensures
        r@ == upper_of(c),
        r@.len() >= 1,
{
    c.to_uppercase().collect()
}

/// A word with its first character replaced by that character's uppercase
/// mapping.
pub open spec fn capitalized(s: Seq<char>) -> Seq<char> {
    if s.len() == 0 {
        Seq::empty()
    } else {
        upper_of(s[0]) + s.drop_first()
    }
}

/// Uppercases the first character of a word, leaving the rest unchanged.
pub fn capitalize_first(s: &str) -> (r: String)
    ensures
        r@ == capitalized(s@),
{
    let n = s.unicode_len();
    if n == 0 {
        String::new()
    } else {
        let first = s.get_char(0);
        let rest = s.substring_char(1, n);
        let mut r = char_to_uppercase(first);
        r.append(rest);
        proof {
            assert(rest@ =~= s@.drop_first());
        }
        r
    }
}

/// Relies on rand::random: an arbitrary value of the requested type; nothing
/// is promised of which value comes back.
pub assume_specification<T>[ rand::random::<T> ]() -> (r: T)
    where
        rand::distributions::Standard: rand::distributions::Distribution<T>,
;

/// Draws one random adjective and one random animal and joins them, each with
/// its first character uppercased. Fails exactly when either list is empty.
pub fn generate_codename(codename_data: &CodenameData) -> (r: Result<String, String>)
    ensures
        r is Err <==> (codename_data.adjectives@.len() == 0 || codename_data.animals@.len() == 0),
        r is Err ==> r->Err_0@ == "Codename generation failed"@,
        r is Ok ==> exists|i: int, j: int|
            0 <= i < codename_data.adjectives@.len() && 0 <= j < codename_data.animals@.len()
                && r->Ok_0@ == capitalized(codename_data.adjectives@[i]@) + " "@ + capitalized(
                codename_data.animals@[j]@,
            ),
{
    if codename_data.adjectives.len() == 0 || codename_data.animals.len() == 0 {
        return Err(String::from_str("Codename generation failed"));
    }
    let r1: u64 = rand::random::<u64>();
    let r2: u64 = rand::random::<u64>();
    let adj_index = (r1 % (codename_data.adjectives.len() as u64)) as usize;
    let animal_index = (r2 % (codename_data.animals.len() as u64)) as usize;
    let adjective: &String = &codename_data.adjectives[adj_index];
    let animal: &String = &codename_data.animals[animal_index];
    let mut out = capitalize_first(adjective.as_str());
    out.append(" ");
    let cap_animal = capitalize_first(animal.as_str());
    out.append(cap_animal.as_str());
    Ok(out)
}

} // verus!
