use vstd::prelude::*;

verus! {

/// The characters of all the words, one word after the other.
pub fn flatten_words(words: &Vec<Vec<char>>) -> (r: Vec<char>)
    ensures
        r@ == words@.map_values(|w: Vec<char>| w@).flatten(),
{
    let mut out: Vec<char> = Vec::new();
    let mut i: usize = 0;
    while i < words.len()
        invariant
            i <= words@.len(),
            out@ == words@.take(i as int).map_values(|w: Vec<char>| w@).flatten(),
        decreases words@.len() - i,
    {
        let word = &words[i];
        let ghost start = out@;
        let mut k: usize = 0;
        while k < word.len()
            invariant
                k <= word@.len(),
                out@ == start + word@.take(k as int),
            decreases word@.len() - k,
        {
            out.push(word[k]);
            k = k + 1;
            proof {
                assert(out@ =~= start + word@.take(k as int));
            }
        }
        proof {
            let before = words@.take(i as int).map_values(|w: Vec<char>| w@);
            before.lemma_flatten_push(word@);
            assert(words@.take(i + 1).map_values(|w: Vec<char>| w@) =~= before.push(word@));
            assert(word@.take(k as int) =~= word@);
        }
        i = i + 1;
    }
    proof {
        assert(words@.take(i as int) =~= words@);
    }
    out
}

} // verus!
