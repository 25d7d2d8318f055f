use vstd::prelude::*;

verus! {

/// The pass-through tag that accepts every codec of the given losslessness.
pub open spec fn quality_tag(lossless: bool) -> Seq<char> {
    if lossless {
        "quality:lossless"@
    } else {
        "quality:lossy"@
    }
}

/// A codec passes unconverted when the allow-list names it exactly, or holds
/// the quality tag that matches its losslessness.
pub open spec fn acceptable(name: Seq<char>, lossless: bool, formats: Seq<Seq<char>>) -> bool {
    formats.contains(name) || formats.contains(quality_tag(lossless))
}

/// Acceptability is decided by the allow-list alone: an empty list accepts
/// nothing, nor does a list that holds only the other quality tag; the
/// codec's own name, or its own quality tag, accepts it.
pub proof fn lemma_acceptability(name: Seq<char>, lossless: bool, formats: Seq<Seq<char>>)
    ensures
        formats.len() == 0 ==> !acceptable(name, lossless, formats),
        formats == seq![quality_tag(!lossless)] && name != quality_tag(!lossless)
            ==> !acceptable(name, lossless, formats),
        formats.contains(name) ==> acceptable(name, lossless, formats),
        formats.contains(quality_tag(lossless)) ==> acceptable(name, lossless, formats),
{
    reveal_strlit("quality:lossless");
    reveal_strlit("quality:lossy");
    assert(quality_tag(true).len() != quality_tag(false).len());
    if formats == seq![quality_tag(!lossless)] && name != quality_tag(!lossless) {
        assert(!formats.contains(name));
        assert(!formats.contains(quality_tag(lossless)));
    }
}

/// Basic metadata of an audio codec, used to decide how a file is converted.
#[derive(Debug)]
pub struct Codec<'a> {
    /// The codec's name, as the media engine spells its identifier.
    pub name: &'a str,
    /// Whether the codec is lossless.
    pub lossless: bool,
    /// The file extension that the codec's files carry (`mp3`).
    pub extension: &'a str,
}

impl<'a> Codec<'a> {
    /// Whether this codec is one of the acceptable formats of a conversion
    /// profile: named exactly (case matters), or covered by
    /// `quality:lossless` / `quality:lossy`. An empty list accepts nothing.
    pub fn is_acceptable(&self, acceptable_formats: &[String]) -> (r: bool)
        ensures
            r == acceptable(self.name@, self.lossless, acceptable_formats.deep_view()),
    {
        let name = String::from_str(self.name);
        let tag = if self.lossless {
            String::from_str("quality:lossless")
        } else {
            String::from_str("quality:lossy")
        };
        let ghost formats = acceptable_formats.deep_view();
        let mut found_name = false;
        let mut found_tag = false;
        let mut i: usize = 0;
        while i < acceptable_formats.len()
            invariant
                i <= acceptable_formats.len(),
                formats == acceptable_formats.deep_view(),
                name@ == self.name@,
                tag@ == quality_tag(self.lossless),
                found_name == (exists|j: int| 0 <= j < i && formats[j] == self.name@),
                found_tag == (exists|j: int| 0 <= j < i && formats[j] == quality_tag(self.lossless)),
            decreases acceptable_formats.len() - i,
        {
            assert(formats[i as int] == acceptable_formats@[i as int]@);
            if acceptable_formats[i] == name {
                found_name = true;
            }
            if acceptable_formats[i] == tag {
                found_tag = true;
            }
            i = i + 1;
        }
        proof {
            assert(found_name == formats.contains(self.name@));
            assert(found_tag == formats.contains(quality_tag(self.lossless)));
        }
        found_name || found_tag
    }
}

} // verus!
