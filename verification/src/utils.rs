//! Small helpers: random file names, and the report of missing programs.

use vstd::prelude::*;

use rand::rngs::ThreadRng;

use crate::text::{join, join_spec, push_char};

verus! {

#[verifier::external_type_specification]
#[verifier::external_body]
pub struct ExThreadRng(ThreadRng);

/// The thread-local random number generator (`rand::thread_rng`).
///
/// Trusted: nothing is claimed of the generator; it is only handed to
/// [`sample_alphanumeric`].
#[verifier::external_body]
fn thread_rng() -> ThreadRng {
    rand::thread_rng()
}

/// `b` is an ASCII letter or digit.
pub open spec fn is_alphanumeric_byte(b: u8) -> bool {
    (65 <= b <= 90) || (97 <= b <= 122) || (48 <= b <= 57)
}

/// `c` is an ASCII letter or digit.
pub open spec fn is_alphanumeric_char(c: char) -> bool {
    ('A' <= c <= 'Z') || ('a' <= c <= 'z') || ('0' <= c <= '9')
}

/// One random ASCII letter or digit (`Rng::sample` with `Alphanumeric`).
///
/// Trusted: rand documents `Alphanumeric` as sampling a `u8` among the ASCII
/// letters and digits `a-z`, `A-Z` and `0-9`; which one is left open, as it is
/// random.
#[verifier::external_body]
fn sample_alphanumeric(rng: &mut ThreadRng) -> (b: u8)
    ensures
        is_alphanumeric_byte(b),
{
    rand::Rng::sample(rng, rand::distributions::Alphanumeric)
}

/// `extension` with a leading dot, added where it has none.
pub open spec fn dotted(extension: Seq<char>) -> Seq<char> {
    if extension.len() > 0 && extension[0] == '.' {
        extension
    } else {
        seq!['.'] + extension
    }
}

/// The path of `name` inside the directory `dir` (`Path::join` for a
/// relative `name`): a separator goes between them unless `dir` is empty or
/// already ends with one.
pub open spec fn path_join(dir: Seq<char>, name: Seq<char>) -> Seq<char> {
    if dir.len() == 0 || dir.last() == '/' {
        dir + name
    } else {
        dir + seq!['/'] + name
    }
}

/// Length of the random part of a file name.
pub const RANDOM_NAME_LEN: usize = 16;

/// `path` is in `dir`, with a name made of [`RANDOM_NAME_LEN`] random ASCII
/// letters and digits followed by `extension` with a leading dot.
pub open spec fn random_path_in(path: Seq<char>, dir: Seq<char>, extension: Seq<char>) -> bool {
    exists|name: Seq<char>|
        {
            &&& name.len() == RANDOM_NAME_LEN
            &&& forall|i: int| 0 <= i < name.len() ==> is_alphanumeric_char(#[trigger] name[i])
            &&& path == path_join(dir, name + dotted(extension))
        }
}

/// The characters that the bytes `name` stand for, one each.
pub open spec fn name_chars(name: Seq<u8>) -> Seq<char> {
    name.map_values(|b: u8| b as char)
}

/// The path of the file named by the bytes `name`, followed by `extension`
/// with a leading dot, in the directory `temp_dir`.
pub fn random_file_path(temp_dir: &str, name: &Vec<u8>, extension: &str) -> (r: String)
    ensures
        r@ == path_join(temp_dir@, name_chars(name@) + dotted(extension@)),
{
    let mut file = String::new();
    let mut i: usize = 0;
    while i < name.len()
        invariant
            i <= name.len(),
            file@ == name_chars(name@.take(i as int)),
        decreases name.len() - i,
    {
        let c = name[i] as char;
        let ghost before = file@;
        push_char(&mut file, c);
        assert(name@.take(i + 1) =~= name@.take(i as int).push(name@[i as int]));
        assert(file@ =~= name_chars(name@.take(i + 1)));
        i += 1;
    }
    assert(name@.take(name.len() as int) =~= name@);
    let ghost stem = file@;
    let ext = crate::text::chars_of(extension);
    if !(ext.len() > 0 && ext[0] == '.') {
        push_char(&mut file, '.');
    }
    file.append(extension);
    assert(file@ =~= stem + dotted(extension@));
    let dir = crate::text::chars_of(temp_dir);
    let mut path = temp_dir.to_owned();
    if !(dir.len() == 0 || dir[dir.len() - 1] == '/') {
        push_char(&mut path, '/');
    }
    path.append(file.as_str());
    assert(path@ =~= path_join(temp_dir@, stem + dotted(extension@)));
    path
}

/// Generate a random file path with `extension` in the directory
/// `temp_dir` (the system's temporary directory); consider deleting the file
/// manually when you are done with it. The name is made of
/// [`RANDOM_NAME_LEN`] draws of random ASCII letters and digits, assembled by
/// [`random_file_path`].
pub fn rand_path_with_extension(temp_dir: &str, extension: &str) -> (r: String)
    ensures
        random_path_in(r@, temp_dir@, extension@),
{
    let mut rng = thread_rng();
    let mut name: Vec<u8> = Vec::new();
    let mut i: usize = 0;
    while i < RANDOM_NAME_LEN
        invariant
            i <= RANDOM_NAME_LEN,
            name.len() == i,
            forall|k: int| 0 <= k < name.len() ==> is_alphanumeric_byte(#[trigger] name@[k]),
        decreases RANDOM_NAME_LEN - i,
    {
        let b = sample_alphanumeric(&mut rng);
        name.push(b);
        i += 1;
    }
    let r = random_file_path(temp_dir, &name, extension);
    let ghost chars = name_chars(name@);
    assert forall|k: int| 0 <= k < chars.len() implies is_alphanumeric_char(#[trigger] chars[k]) by {
        let b = name@[k];
        assert(is_alphanumeric_byte(b));
        assert(chars[k] == b as char);
    }
    assert(chars.len() == RANDOM_NAME_LEN);
    r
}

/// The names whose program was not found, in order.
pub open spec fn missing_spec(names: Seq<Seq<char>>, found: Seq<bool>) -> Seq<Seq<char>>
    decreases names.len(),
{
    if names.len() == 0 || found.len() == 0 {
        Seq::empty()
    } else {
        let rest = missing_spec(names.drop_last(), found.drop_last());
        if found.last() {
            rest
        } else {
            rest.push(names.last())
        }
    }
}

/// Validate program presence: given whether each needed program was found,
/// fails with a message that lists, separated by commas, those that were not.
pub fn needed_programs_report(names: &Vec<String>, found: &Vec<bool>) -> (r: Result<(), String>)
    requires
        names.len() == found.len(),
    ensures
        r is Ok <==> missing_spec(names.deep_view(), found@).len() == 0,
        r matches Err(m) ==> m@ == "missing binaries: "@ + join_spec(
            missing_spec(names.deep_view(), found@),
            ","@,
        ),
{
    let mut missing: Vec<String> = Vec::new();
    let mut i: usize = 0;
    while i < names.len()
        invariant
            i <= names.len() == found.len(),
            missing.deep_view() == missing_spec(
                names.deep_view().take(i as int),
                found@.take(i as int),
            ),
        decreases names.len() - i,
    {
        assert(names.deep_view().take(i + 1).drop_last() =~= names.deep_view().take(i as int));
        assert(found@.take(i + 1).drop_last() =~= found@.take(i as int));
        if !found[i] {
            let ghost before = missing.deep_view();
            missing.push(names[i].clone());
            assert(missing.deep_view() =~= before.push(names[i as int]@));
        }
        i += 1;
    }
    assert(names.deep_view().take(names.len() as int) =~= names.deep_view());
    assert(found@.take(found.len() as int) =~= found@);
    if missing.len() == 0 {
        Ok(())
    } else {
        let mut m = "missing binaries: ".to_owned();
        let list = join(&missing, ",");
        m.append(list.as_str());
        Err(m)
    }
}

/// The report lists exactly the programs that were not found: every one
/// whose lookup failed is listed, each listed name is that of a program not
/// found, and nothing is listed, so that all is well, exactly when every
/// program was found.
pub proof fn lemma_missing_programs(names: Seq<Seq<char>>, found: Seq<bool>)
    requires
        names.len() == found.len(),
    ensures
        missing_spec(names, found).len() == 0 <==> forall|k: int| 0 <= k < found.len() ==> #[trigger] found[k],
        forall|k: int|
            0 <= k < names.len() && !#[trigger] found[k] ==> missing_spec(names, found).contains(names[k]),
        forall|u: Seq<char>|
            #[trigger] missing_spec(names, found).contains(u) ==> exists|k: int|
                0 <= k < names.len() && !#[trigger] found[k] && names[k] == u,
    decreases names.len(),
{
    if names.len() > 0 {
        let n0 = names.drop_last();
        let f0 = found.drop_last();
        lemma_missing_programs(n0, f0);
        let rest = missing_spec(n0, f0);
        let all = missing_spec(names, found);
        assert forall|k: int| 0 <= k < names.len() && !#[trigger] found[k] implies all.contains(names[k]) by {
            if k < names.len() - 1 {
                assert(f0[k] == found[k] && n0[k] == names[k]);
                let w = choose|w: int| 0 <= w < rest.len() && rest[w] == names[k];
                if !found.last() {
                    assert(all[w] == rest[w]);
                }
            } else {
                assert(all[all.len() - 1] == names.last());
            }
        }
        assert forall|u: Seq<char>| #[trigger] all.contains(u) implies exists|k: int|
            0 <= k < names.len() && !#[trigger] found[k] && names[k] == u by {
            let w = choose|w: int| 0 <= w < all.len() && all[w] == u;
            if w < rest.len() {
                assert(rest[w] == u);
                assert(rest.contains(u));
                let k = choose|k: int| 0 <= k < n0.len() && !#[trigger] f0[k] && n0[k] == u;
                assert(found[k] == f0[k] && names[k] == n0[k]);
            } else {
                assert(found[found.len() - 1] == found.last());
            }
        }
        if forall|k: int| 0 <= k < found.len() ==> #[trigger] found[k] {
            assert forall|k: int| 0 <= k < f0.len() implies #[trigger] f0[k] by {
                assert(f0[k] == found[k]);
            }
            assert(found[found.len() - 1]);
        }
        if all.len() == 0 {
            assert forall|k: int| 0 <= k < found.len() implies #[trigger] found[k] by {
                if !found[k] {
                    assert(all.contains(names[k]));
                }
            }
        }
    }
}

} // verus!
