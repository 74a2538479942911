use vstd::prelude::*;

verus! {

/// A value that may be absent.
pub enum MyOption<T> {
    Nothing,
    Something(T),
}

/// The position, counted in characters, of the first 'o' in `s`, or `Nothing`
/// when `s` holds no 'o'.
pub fn find_first_a(s: String) -> (r: MyOption<usize>)
    ensures
        r matches MyOption::Something(i) ==> i < s@.len() && s@[i as int] == 'o' && forall|k: int|
            0 <= k < i ==> s@[k] != 'o',
        r is Nothing ==> forall|k: int| 0 <= k < s@.len() ==> s@[k] != 'o',
{
    let n = s.as_str().unicode_len();
    let mut i: usize = 0;
    while i < n
        invariant
            n == s@.len(),
            i <= n,
            forall|k: int| 0 <= k < i ==> s@[k] != 'o',
        decreases n - i,
    {
        if s.as_str().get_char(i) == 'o' {
            return MyOption::Something(i);
        }
        i = i + 1;
    }
    MyOption::Nothing
}

} // verus!
