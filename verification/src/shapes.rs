use vstd::prelude::*;

use crate::grid::lex_lt;
use crate::ivec::IVec2;
use crate::rule::Rule;
use crate::text::{chars_of, is_white_space, is_white_space_char, push_char, same_chars, str_eq};

verus! {

/// Number of genera that have a display name.
pub const GENUS_COUNT: usize = 21;

/// The `i`-th genus of the catalogue with its display name.
pub open spec fn genus_entry(i: int) -> (&'static str, &'static str) {
    if i == 0 {
        ("Orbium", "Orbium (球形目)")
    } else if i == 1 {
        ("Gyrorbium", "Gyrorbium (旋球目)")
    } else if i == 2 {
        ("Vagorbium", "Vagorbium (游球目)")
    } else if i == 3 {
        ("Synorbium", "Synorbium (联球目)")
    } else if i == 4 {
        ("Trisynorbium", "Trisynorbium (三联球目)")
    } else if i == 5 {
        ("Parorbium", "Parorbium (并球目)")
    } else if i == 6 {
        ("Triparorbium", "Triparorbium (三并球目)")
    } else if i == 7 {
        ("Scutium", "Scutium (盾形目)")
    } else if i == 8 {
        ("Discutium", "Discutium (盘盾目)")
    } else if i == 9 {
        ("Triscutium", "Triscutium (三盾目)")
    } else if i == 10 {
        ("Hydrogeminium", "Hydrogeminium (水双生目)")
    } else if i == 11 {
        ("Tessellatium", "Tessellatium (镶嵌目)")
    } else if i == 12 {
        ("Flos", "Flos (花形目)")
    } else if i == 13 {
        ("Asteria", "Asteria (星形目)")
    } else if i == 14 {
        ("Spirillum", "Spirillum (螺旋目)")
    } else if i == 15 {
        ("Angula", "Angula (角形目)")
    } else if i == 16 {
        ("Caterpillar", "Caterpillar (毛虫目)")
    } else if i == 17 {
        ("Platyhelminthes", "Platyhelminthes (扁虫目)")
    } else if i == 18 {
        ("Lacuna", "Lacuna (环空目)")
    } else if i == 19 {
        ("Medusa", "Medusa (水母目)")
    } else if i == 20 {
        ("Anemone", "Anemone (海葵目)")
    } else {
        ("", "")
    }
}

fn genus_entry_at(i: usize) -> (r: (&'static str, &'static str))
    requires
        i < GENUS_COUNT,
    ensures
        r == genus_entry(i as int),
{
    if i == 0 {
        ("Orbium", "Orbium (球形目)")
    } else if i == 1 {
        ("Gyrorbium", "Gyrorbium (旋球目)")
    } else if i == 2 {
        ("Vagorbium", "Vagorbium (游球目)")
    } else if i == 3 {
        ("Synorbium", "Synorbium (联球目)")
    } else if i == 4 {
        ("Trisynorbium", "Trisynorbium (三联球目)")
    } else if i == 5 {
        ("Parorbium", "Parorbium (并球目)")
    } else if i == 6 {
        ("Triparorbium", "Triparorbium (三并球目)")
    } else if i == 7 {
        ("Scutium", "Scutium (盾形目)")
    } else if i == 8 {
        ("Discutium", "Discutium (盘盾目)")
    } else if i == 9 {
        ("Triscutium", "Triscutium (三盾目)")
    } else if i == 10 {
        ("Hydrogeminium", "Hydrogeminium (水双生目)")
    } else if i == 11 {
        ("Tessellatium", "Tessellatium (镶嵌目)")
    } else if i == 12 {
        ("Flos", "Flos (花形目)")
    } else if i == 13 {
        ("Asteria", "Asteria (星形目)")
    } else if i == 14 {
        ("Spirillum", "Spirillum (螺旋目)")
    } else if i == 15 {
        ("Angula", "Angula (角形目)")
    } else if i == 16 {
        ("Caterpillar", "Caterpillar (毛虫目)")
    } else if i == 17 {
        ("Platyhelminthes", "Platyhelminthes (扁虫目)")
    } else if i == 18 {
        ("Lacuna", "Lacuna (环空目)")
    } else if i == 19 {
        ("Medusa", "Medusa (水母目)")
    } else if i == 20 {
        ("Anemone", "Anemone (海葵目)")
    } else {
        ("", "")
    }
}

/// The display name of `genus`, searching the catalogue from entry `i` on:
/// the display name of the first entry named `genus`, or `genus` itself.
pub open spec fn genus_display_from(genus: Seq<char>, i: nat) -> Seq<char>
    decreases GENUS_COUNT - i,
{
    if i >= GENUS_COUNT {
        genus
    } else if genus_entry(i as int).0@ == genus {
        genus_entry(i as int).1@
    } else {
        genus_display_from(genus, i + 1)
    }
}

/// The display name of a genus: its catalogue entry, or the genus itself when it has none.
pub open spec fn genus_display_of(genus: Seq<char>) -> Seq<char> {
    genus_display_from(genus, 0)
}

/// The display name of `genus`, or `genus` itself when the catalogue has none.
pub fn get_genus_display(genus: &str) -> (r: &str)
    ensures
        r@ == genus_display_of(genus@),
{
    let mut i: usize = 0;
    while i < GENUS_COUNT
        invariant
            i <= GENUS_COUNT,
            genus_display_of(genus@) == genus_display_from(genus@, i as nat),
        decreases GENUS_COUNT - i,
    {
        let (g, display) = genus_entry_at(i);
        if str_eq(g, genus) {
            return display;
        }
        i = i + 1;
    }
    genus
}

/// The display name of every genus of the catalogue: the genus followed by
/// its Chinese order name in brackets, as the catalogue of shapes names them.
pub proof fn law_genus_display_names()
    ensures
        genus_display_of("Orbium"@) == "Orbium (球形目)"@,
        genus_display_of("Gyrorbium"@) == "Gyrorbium (旋球目)"@,
        genus_display_of("Vagorbium"@) == "Vagorbium (游球目)"@,
        genus_display_of("Synorbium"@) == "Synorbium (联球目)"@,
        genus_display_of("Trisynorbium"@) == "Trisynorbium (三联球目)"@,
        genus_display_of("Parorbium"@) == "Parorbium (并球目)"@,
        genus_display_of("Triparorbium"@) == "Triparorbium (三并球目)"@,
        genus_display_of("Scutium"@) == "Scutium (盾形目)"@,
        genus_display_of("Discutium"@) == "Discutium (盘盾目)"@,
        genus_display_of("Triscutium"@) == "Triscutium (三盾目)"@,
        genus_display_of("Hydrogeminium"@) == "Hydrogeminium (水双生目)"@,
        genus_display_of("Tessellatium"@) == "Tessellatium (镶嵌目)"@,
        genus_display_of("Flos"@) == "Flos (花形目)"@,
        genus_display_of("Asteria"@) == "Asteria (星形目)"@,
        genus_display_of("Spirillum"@) == "Spirillum (螺旋目)"@,
        genus_display_of("Angula"@) == "Angula (角形目)"@,
        genus_display_of("Caterpillar"@) == "Caterpillar (毛虫目)"@,
        genus_display_of("Platyhelminthes"@) == "Platyhelminthes (扁虫目)"@,
        genus_display_of("Lacuna"@) == "Lacuna (环空目)"@,
        genus_display_of("Medusa"@) == "Medusa (水母目)"@,
        genus_display_of("Anemone"@) == "Anemone (海葵目)"@,
{
    assert(genus_display_of("Orbium"@) == "Orbium (球形目)"@) by {
        reveal_strlit("Orbium");
        reveal_with_fuel(genus_display_from, 2);
    }
    assert(genus_display_of("Gyrorbium"@) == "Gyrorbium (旋球目)"@) by {
        reveal_strlit("Orbium");
        reveal_strlit("Gyrorbium");
        assert(genus_entry(0).0@.len() != "Gyrorbium"@.len());
        assert(genus_entry(0).0@ != "Gyrorbium"@);
        reveal_with_fuel(genus_display_from, 3);
    }
    assert(genus_display_of("Vagorbium"@) == "Vagorbium (游球目)"@) by {
        reveal_strlit("Orbium");
        reveal_strlit("Gyrorbium");
        reveal_strlit("Vagorbium");
        assert(genus_entry(0).0@.len() != "Vagorbium"@.len());
        assert(genus_entry(0).0@ != "Vagorbium"@);
        assert(genus_entry(1).0@[0] != "Vagorbium"@[0]);
        assert(genus_entry(1).0@ != "Vagorbium"@);
        reveal_with_fuel(genus_display_from, 4);
    }
    assert(genus_display_of("Synorbium"@) == "Synorbium (联球目)"@) by {
        reveal_strlit("Orbium");
        reveal_strlit("Gyrorbium");
        reveal_strlit("Vagorbium");
        reveal_strlit("Synorbium");
        assert(genus_entry(0).0@.len() != "Synorbium"@.len());
        assert(genus_entry(0).0@ != "Synorbium"@);
        assert(genus_entry(1).0@[0] != "Synorbium"@[0]);
        assert(genus_entry(1).0@ != "Synorbium"@);
        assert(genus_entry(2).0@[0] != "Synorbium"@[0]);
        assert(genus_entry(2).0@ != "Synorbium"@);
        reveal_with_fuel(genus_display_from, 5);
    }
    assert(genus_display_of("Trisynorbium"@) == "Trisynorbium (三联球目)"@) by {
        reveal_strlit("Orbium");
        reveal_strlit("Gyrorbium");
        reveal_strlit("Vagorbium");
        reveal_strlit("Synorbium");
        reveal_strlit("Trisynorbium");
        assert(genus_entry(0).0@.len() != "Trisynorbium"@.len());
        assert(genus_entry(0).0@ != "Trisynorbium"@);
        assert(genus_entry(1).0@.len() != "Trisynorbium"@.len());
        assert(genus_entry(1).0@ != "Trisynorbium"@);
        assert(genus_entry(2).0@.len() != "Trisynorbium"@.len());
        assert(genus_entry(2).0@ != "Trisynorbium"@);
        assert(genus_entry(3).0@.len() != "Trisynorbium"@.len());
        assert(genus_entry(3).0@ != "Trisynorbium"@);
        reveal_with_fuel(genus_display_from, 6);
    }
    assert(genus_display_of("Parorbium"@) == "Parorbium (并球目)"@) by {
        reveal_strlit("Orbium");
        reveal_strlit("Gyrorbium");
        reveal_strlit("Vagorbium");
        reveal_strlit("Synorbium");
        reveal_strlit("Trisynorbium");
        reveal_strlit("Parorbium");
        assert(genus_entry(0).0@.len() != "Parorbium"@.len());
        assert(genus_entry(0).0@ != "Parorbium"@);
        assert(genus_entry(1).0@[0] != "Parorbium"@[0]);
        assert(genus_entry(1).0@ != "Parorbium"@);
        assert(genus_entry(2).0@[0] != "Parorbium"@[0]);
        assert(genus_entry(2).0@ != "Parorbium"@);
        assert(genus_entry(3).0@[0] != "Parorbium"@[0]);
        assert(genus_entry(3).0@ != "Parorbium"@);
        assert(genus_entry(4).0@.len() != "Parorbium"@.len());
        assert(genus_entry(4).0@ != "Parorbium"@);
        reveal_with_fuel(genus_display_from, 7);
    }
    assert(genus_display_of("Triparorbium"@) == "Triparorbium (三并球目)"@) by {
        reveal_strlit("Orbium");
        reveal_strlit("Gyrorbium");
        reveal_strlit("Vagorbium");
        reveal_strlit("Synorbium");
        reveal_strlit("Trisynorbium");
        reveal_strlit("Parorbium");
        reveal_strlit("Triparorbium");
        assert(genus_entry(0).0@.len() != "Triparorbium"@.len());
        assert(genus_entry(0).0@ != "Triparorbium"@);
        assert(genus_entry(1).0@.len() != "Triparorbium"@.len());
        assert(genus_entry(1).0@ != "Triparorbium"@);
        assert(genus_entry(2).0@.len() != "Triparorbium"@.len());
        assert(genus_entry(2).0@ != "Triparorbium"@);
        assert(genus_entry(3).0@.len() != "Triparorbium"@.len());
        assert(genus_entry(3).0@ != "Triparorbium"@);
        assert(genus_entry(4).0@[3] != "Triparorbium"@[3]);
        assert(genus_entry(4).0@ != "Triparorbium"@);
        assert(genus_entry(5).0@.len() != "Triparorbium"@.len());
        assert(genus_entry(5).0@ != "Triparorbium"@);
        reveal_with_fuel(genus_display_from, 8);
    }
    assert(genus_display_of("Scutium"@) == "Scutium (盾形目)"@) by {
        reveal_strlit("Orbium");
        reveal_strlit("Gyrorbium");
        reveal_strlit("Vagorbium");
        reveal_strlit("Synorbium");
        reveal_strlit("Trisynorbium");
        reveal_strlit("Parorbium");
        reveal_strlit("Triparorbium");
        reveal_strlit("Scutium");
        assert(genus_entry(0).0@.len() != "Scutium"@.len());
        assert(genus_entry(0).0@ != "Scutium"@);
        assert(genus_entry(1).0@.len() != "Scutium"@.len());
        assert(genus_entry(1).0@ != "Scutium"@);
        assert(genus_entry(2).0@.len() != "Scutium"@.len());
        assert(genus_entry(2).0@ != "Scutium"@);
        assert(genus_entry(3).0@.len() != "Scutium"@.len());
        assert(genus_entry(3).0@ != "Scutium"@);
        assert(genus_entry(4).0@.len() != "Scutium"@.len());
        assert(genus_entry(4).0@ != "Scutium"@);
        assert(genus_entry(5).0@.len() != "Scutium"@.len());
        assert(genus_entry(5).0@ != "Scutium"@);
        assert(genus_entry(6).0@.len() != "Scutium"@.len());
        assert(genus_entry(6).0@ != "Scutium"@);
        reveal_with_fuel(genus_display_from, 9);
    }
    assert(genus_display_of("Discutium"@) == "Discutium (盘盾目)"@) by {
        reveal_strlit("Orbium");
        reveal_strlit("Gyrorbium");
        reveal_strlit("Vagorbium");
        reveal_strlit("Synorbium");
        reveal_strlit("Trisynorbium");
        reveal_strlit("Parorbium");
        reveal_strlit("Triparorbium");
        reveal_strlit("Scutium");
        reveal_strlit("Discutium");
        assert(genus_entry(0).0@.len() != "Discutium"@.len());
        assert(genus_entry(0).0@ != "Discutium"@);
        assert(genus_entry(1).0@[0] != "Discutium"@[0]);
        assert(genus_entry(1).0@ != "Discutium"@);
        assert(genus_entry(2).0@[0] != "Discutium"@[0]);
        assert(genus_entry(2).0@ != "Discutium"@);
        assert(genus_entry(3).0@[0] != "Discutium"@[0]);
        assert(genus_entry(3).0@ != "Discutium"@);
        assert(genus_entry(4).0@.len() != "Discutium"@.len());
        assert(genus_entry(4).0@ != "Discutium"@);
        assert(genus_entry(5).0@[0] != "Discutium"@[0]);
        assert(genus_entry(5).0@ != "Discutium"@);
        assert(genus_entry(6).0@.len() != "Discutium"@.len());
        assert(genus_entry(6).0@ != "Discutium"@);
        assert(genus_entry(7).0@.len() != "Discutium"@.len());
        assert(genus_entry(7).0@ != "Discutium"@);
        reveal_with_fuel(genus_display_from, 10);
    }
    assert(genus_display_of("Triscutium"@) == "Triscutium (三盾目)"@) by {
        reveal_strlit("Orbium");
        reveal_strlit("Gyrorbium");
        reveal_strlit("Vagorbium");
        reveal_strlit("Synorbium");
        reveal_strlit("Trisynorbium");
        reveal_strlit("Parorbium");
        reveal_strlit("Triparorbium");
        reveal_strlit("Scutium");
        reveal_strlit("Discutium");
        reveal_strlit("Triscutium");
        assert(genus_entry(0).0@.len() != "Triscutium"@.len());
        assert(genus_entry(0).0@ != "Triscutium"@);
        assert(genus_entry(1).0@.len() != "Triscutium"@.len());
        assert(genus_entry(1).0@ != "Triscutium"@);
        assert(genus_entry(2).0@.len() != "Triscutium"@.len());
        assert(genus_entry(2).0@ != "Triscutium"@);
        assert(genus_entry(3).0@.len() != "Triscutium"@.len());
        assert(genus_entry(3).0@ != "Triscutium"@);
        assert(genus_entry(4).0@.len() != "Triscutium"@.len());
        assert(genus_entry(4).0@ != "Triscutium"@);
        assert(genus_entry(5).0@.len() != "Triscutium"@.len());
        assert(genus_entry(5).0@ != "Triscutium"@);
        assert(genus_entry(6).0@.len() != "Triscutium"@.len());
        assert(genus_entry(6).0@ != "Triscutium"@);
        assert(genus_entry(7).0@.len() != "Triscutium"@.len());
        assert(genus_entry(7).0@ != "Triscutium"@);
        assert(genus_entry(8).0@.len() != "Triscutium"@.len());
        assert(genus_entry(8).0@ != "Triscutium"@);
        reveal_with_fuel(genus_display_from, 11);
    }
    assert(genus_display_of("Hydrogeminium"@) == "Hydrogeminium (水双生目)"@) by {
        reveal_strlit("Orbium");
        reveal_strlit("Gyrorbium");
        reveal_strlit("Vagorbium");
        reveal_strlit("Synorbium");
        reveal_strlit("Trisynorbium");
        reveal_strlit("Parorbium");
        reveal_strlit("Triparorbium");
        reveal_strlit("Scutium");
        reveal_strlit("Discutium");
        reveal_strlit("Triscutium");
        reveal_strlit("Hydrogeminium");
        assert(genus_entry(0).0@.len() != "Hydrogeminium"@.len());
        assert(genus_entry(0).0@ != "Hydrogeminium"@);
        assert(genus_entry(1).0@.len() != "Hydrogeminium"@.len());
        assert(genus_entry(1).0@ != "Hydrogeminium"@);
        assert(genus_entry(2).0@.len() != "Hydrogeminium"@.len());
        assert(genus_entry(2).0@ != "Hydrogeminium"@);
        assert(genus_entry(3).0@.len() != "Hydrogeminium"@.len());
        assert(genus_entry(3).0@ != "Hydrogeminium"@);
        assert(genus_entry(4).0@.len() != "Hydrogeminium"@.len());
        assert(genus_entry(4).0@ != "Hydrogeminium"@);
        assert(genus_entry(5).0@.len() != "Hydrogeminium"@.len());
        assert(genus_entry(5).0@ != "Hydrogeminium"@);
        assert(genus_entry(6).0@.len() != "Hydrogeminium"@.len());
        assert(genus_entry(6).0@ != "Hydrogeminium"@);
        assert(genus_entry(7).0@.len() != "Hydrogeminium"@.len());
        assert(genus_entry(7).0@ != "Hydrogeminium"@);
        assert(genus_entry(8).0@.len() != "Hydrogeminium"@.len());
        assert(genus_entry(8).0@ != "Hydrogeminium"@);
        assert(genus_entry(9).0@.len() != "Hydrogeminium"@.len());
        assert(genus_entry(9).0@ != "Hydrogeminium"@);
        reveal_with_fuel(genus_display_from, 12);
    }
    assert(genus_display_of("Tessellatium"@) == "Tessellatium (镶嵌目)"@) by {
        reveal_strlit("Orbium");
        reveal_strlit("Gyrorbium");
        reveal_strlit("Vagorbium");
        reveal_strlit("Synorbium");
        reveal_strlit("Trisynorbium");
        reveal_strlit("Parorbium");
        reveal_strlit("Triparorbium");
        reveal_strlit("Scutium");
        reveal_strlit("Discutium");
        reveal_strlit("Triscutium");
        reveal_strlit("Hydrogeminium");
        reveal_strlit("Tessellatium");
        assert(genus_entry(0).0@.len() != "Tessellatium"@.len());
        assert(genus_entry(0).0@ != "Tessellatium"@);
        assert(genus_entry(1).0@.len() != "Tessellatium"@.len());
        assert(genus_entry(1).0@ != "Tessellatium"@);
        assert(genus_entry(2).0@.len() != "Tessellatium"@.len());
        assert(genus_entry(2).0@ != "Tessellatium"@);
        assert(genus_entry(3).0@.len() != "Tessellatium"@.len());
        assert(genus_entry(3).0@ != "Tessellatium"@);
        assert(genus_entry(4).0@[1] != "Tessellatium"@[1]);
        assert(genus_entry(4).0@ != "Tessellatium"@);
        assert(genus_entry(5).0@.len() != "Tessellatium"@.len());
        assert(genus_entry(5).0@ != "Tessellatium"@);
        assert(genus_entry(6).0@[1] != "Tessellatium"@[1]);
        assert(genus_entry(6).0@ != "Tessellatium"@);
        assert(genus_entry(7).0@.len() != "Tessellatium"@.len());
        assert(genus_entry(7).0@ != "Tessellatium"@);
        assert(genus_entry(8).0@.len() != "Tessellatium"@.len());
        assert(genus_entry(8).0@ != "Tessellatium"@);
        assert(genus_entry(9).0@.len() != "Tessellatium"@.len());
        assert(genus_entry(9).0@ != "Tessellatium"@);
        assert(genus_entry(10).0@.len() != "Tessellatium"@.len());
        assert(genus_entry(10).0@ != "Tessellatium"@);
        reveal_with_fuel(genus_display_from, 13);
    }
    assert(genus_display_of("Flos"@) == "Flos (花形目)"@) by {
        reveal_strlit("Orbium");
        reveal_strlit("Gyrorbium");
        reveal_strlit("Vagorbium");
        reveal_strlit("Synorbium");
        reveal_strlit("Trisynorbium");
        reveal_strlit("Parorbium");
        reveal_strlit("Triparorbium");
        reveal_strlit("Scutium");
        reveal_strlit("Discutium");
        reveal_strlit("Triscutium");
        reveal_strlit("Hydrogeminium");
        reveal_strlit("Tessellatium");
        reveal_strlit("Flos");
        assert(genus_entry(0).0@.len() != "Flos"@.len());
        assert(genus_entry(0).0@ != "Flos"@);
        assert(genus_entry(1).0@.len() != "Flos"@.len());
        assert(genus_entry(1).0@ != "Flos"@);
        assert(genus_entry(2).0@.len() != "Flos"@.len());
        assert(genus_entry(2).0@ != "Flos"@);
        assert(genus_entry(3).0@.len() != "Flos"@.len());
        assert(genus_entry(3).0@ != "Flos"@);
        assert(genus_entry(4).0@.len() != "Flos"@.len());
        assert(genus_entry(4).0@ != "Flos"@);
        assert(genus_entry(5).0@.len() != "Flos"@.len());
        assert(genus_entry(5).0@ != "Flos"@);
        assert(genus_entry(6).0@.len() != "Flos"@.len());
        assert(genus_entry(6).0@ != "Flos"@);
        assert(genus_entry(7).0@.len() != "Flos"@.len());
        assert(genus_entry(7).0@ != "Flos"@);
        assert(genus_entry(8).0@.len() != "Flos"@.len());
        assert(genus_entry(8).0@ != "Flos"@);
        assert(genus_entry(9).0@.len() != "Flos"@.len());
        assert(genus_entry(9).0@ != "Flos"@);
        assert(genus_entry(10).0@.len() != "Flos"@.len());
        assert(genus_entry(10).0@ != "Flos"@);
        assert(genus_entry(11).0@.len() != "Flos"@.len());
        assert(genus_entry(11).0@ != "Flos"@);
        reveal_with_fuel(genus_display_from, 14);
    }
    assert(genus_display_of("Asteria"@) == "Asteria (星形目)"@) by {
        reveal_strlit("Orbium");
        reveal_strlit("Gyrorbium");
        reveal_strlit("Vagorbium");
        reveal_strlit("Synorbium");
        reveal_strlit("Trisynorbium");
        reveal_strlit("Parorbium");
        reveal_strlit("Triparorbium");
        reveal_strlit("Scutium");
        reveal_strlit("Discutium");
        reveal_strlit("Triscutium");
        reveal_strlit("Hydrogeminium");
        reveal_strlit("Tessellatium");
        reveal_strlit("Flos");
        reveal_strlit("Asteria");
        assert(genus_entry(0).0@.len() != "Asteria"@.len());
        assert(genus_entry(0).0@ != "Asteria"@);
        assert(genus_entry(1).0@.len() != "Asteria"@.len());
        assert(genus_entry(1).0@ != "Asteria"@);
        assert(genus_entry(2).0@.len() != "Asteria"@.len());
        assert(genus_entry(2).0@ != "Asteria"@);
        assert(genus_entry(3).0@.len() != "Asteria"@.len());
        assert(genus_entry(3).0@ != "Asteria"@);
        assert(genus_entry(4).0@.len() != "Asteria"@.len());
        assert(genus_entry(4).0@ != "Asteria"@);
        assert(genus_entry(5).0@.len() != "Asteria"@.len());
        assert(genus_entry(5).0@ != "Asteria"@);
        assert(genus_entry(6).0@.len() != "Asteria"@.len());
        assert(genus_entry(6).0@ != "Asteria"@);
        assert(genus_entry(7).0@[0] != "Asteria"@[0]);
        assert(genus_entry(7).0@ != "Asteria"@);
        assert(genus_entry(8).0@.len() != "Asteria"@.len());
        assert(genus_entry(8).0@ != "Asteria"@);
        assert(genus_entry(9).0@.len() != "Asteria"@.len());
        assert(genus_entry(9).0@ != "Asteria"@);
        assert(genus_entry(10).0@.len() != "Asteria"@.len());
        assert(genus_entry(10).0@ != "Asteria"@);
        assert(genus_entry(11).0@.len() != "Asteria"@.len());
        assert(genus_entry(11).0@ != "Asteria"@);
        assert(genus_entry(12).0@.len() != "Asteria"@.len());
        assert(genus_entry(12).0@ != "Asteria"@);
        reveal_with_fuel(genus_display_from, 15);
    }
    assert(genus_display_of("Spirillum"@) == "Spirillum (螺旋目)"@) by {
        reveal_strlit("Orbium");
        reveal_strlit("Gyrorbium");
        reveal_strlit("Vagorbium");
        reveal_strlit("Synorbium");
        reveal_strlit("Trisynorbium");
        reveal_strlit("Parorbium");
        reveal_strlit("Triparorbium");
        reveal_strlit("Scutium");
        reveal_strlit("Discutium");
        reveal_strlit("Triscutium");
        reveal_strlit("Hydrogeminium");
        reveal_strlit("Tessellatium");
        reveal_strlit("Flos");
        reveal_strlit("Asteria");
        reveal_strlit("Spirillum");
        assert(genus_entry(0).0@.len() != "Spirillum"@.len());
        assert(genus_entry(0).0@ != "Spirillum"@);
        assert(genus_entry(1).0@[0] != "Spirillum"@[0]);
        assert(genus_entry(1).0@ != "Spirillum"@);
        assert(genus_entry(2).0@[0] != "Spirillum"@[0]);
        assert(genus_entry(2).0@ != "Spirillum"@);
        assert(genus_entry(3).0@[1] != "Spirillum"@[1]);
        assert(genus_entry(3).0@ != "Spirillum"@);
        assert(genus_entry(4).0@.len() != "Spirillum"@.len());
        assert(genus_entry(4).0@ != "Spirillum"@);
        assert(genus_entry(5).0@[0] != "Spirillum"@[0]);
        assert(genus_entry(5).0@ != "Spirillum"@);
        assert(genus_entry(6).0@.len() != "Spirillum"@.len());
        assert(genus_entry(6).0@ != "Spirillum"@);
        assert(genus_entry(7).0@.len() != "Spirillum"@.len());
        assert(genus_entry(7).0@ != "Spirillum"@);
        assert(genus_entry(8).0@[0] != "Spirillum"@[0]);
        assert(genus_entry(8).0@ != "Spirillum"@);
        assert(genus_entry(9).0@.len() != "Spirillum"@.len());
        assert(genus_entry(9).0@ != "Spirillum"@);
        assert(genus_entry(10).0@.len() != "Spirillum"@.len());
        assert(genus_entry(10).0@ != "Spirillum"@);
        assert(genus_entry(11).0@.len() != "Spirillum"@.len());
        assert(genus_entry(11).0@ != "Spirillum"@);
        assert(genus_entry(12).0@.len() != "Spirillum"@.len());
        assert(genus_entry(12).0@ != "Spirillum"@);
        assert(genus_entry(13).0@.len() != "Spirillum"@.len());
        assert(genus_entry(13).0@ != "Spirillum"@);
        reveal_with_fuel(genus_display_from, 16);
    }
    assert(genus_display_of("Angula"@) == "Angula (角形目)"@) by {
        reveal_strlit("Orbium");
        reveal_strlit("Gyrorbium");
        reveal_strlit("Vagorbium");
        reveal_strlit("Synorbium");
        reveal_strlit("Trisynorbium");
        reveal_strlit("Parorbium");
        reveal_strlit("Triparorbium");
        reveal_strlit("Scutium");
        reveal_strlit("Discutium");
        reveal_strlit("Triscutium");
        reveal_strlit("Hydrogeminium");
        reveal_strlit("Tessellatium");
        reveal_strlit("Flos");
        reveal_strlit("Asteria");
        reveal_strlit("Spirillum");
        reveal_strlit("Angula");
        assert(genus_entry(0).0@[0] != "Angula"@[0]);
        assert(genus_entry(0).0@ != "Angula"@);
        assert(genus_entry(1).0@.len() != "Angula"@.len());
        assert(genus_entry(1).0@ != "Angula"@);
        assert(genus_entry(2).0@.len() != "Angula"@.len());
        assert(genus_entry(2).0@ != "Angula"@);
        assert(genus_entry(3).0@.len() != "Angula"@.len());
        assert(genus_entry(3).0@ != "Angula"@);
        assert(genus_entry(4).0@.len() != "Angula"@.len());
        assert(genus_entry(4).0@ != "Angula"@);
        assert(genus_entry(5).0@.len() != "Angula"@.len());
        assert(genus_entry(5).0@ != "Angula"@);
        assert(genus_entry(6).0@.len() != "Angula"@.len());
        assert(genus_entry(6).0@ != "Angula"@);
        assert(genus_entry(7).0@.len() != "Angula"@.len());
        assert(genus_entry(7).0@ != "Angula"@);
        assert(genus_entry(8).0@.len() != "Angula"@.len());
        assert(genus_entry(8).0@ != "Angula"@);
        assert(genus_entry(9).0@.len() != "Angula"@.len());
        assert(genus_entry(9).0@ != "Angula"@);
        assert(genus_entry(10).0@.len() != "Angula"@.len());
        assert(genus_entry(10).0@ != "Angula"@);
        assert(genus_entry(11).0@.len() != "Angula"@.len());
        assert(genus_entry(11).0@ != "Angula"@);
        assert(genus_entry(12).0@.len() != "Angula"@.len());
        assert(genus_entry(12).0@ != "Angula"@);
        assert(genus_entry(13).0@.len() != "Angula"@.len());
        assert(genus_entry(13).0@ != "Angula"@);
        assert(genus_entry(14).0@.len() != "Angula"@.len());
        assert(genus_entry(14).0@ != "Angula"@);
        reveal_with_fuel(genus_display_from, 17);
    }
    assert(genus_display_of("Caterpillar"@) == "Caterpillar (毛虫目)"@) by {
        reveal_strlit("Orbium");
        reveal_strlit("Gyrorbium");
        reveal_strlit("Vagorbium");
        reveal_strlit("Synorbium");
        reveal_strlit("Trisynorbium");
        reveal_strlit("Parorbium");
        reveal_strlit("Triparorbium");
        reveal_strlit("Scutium");
        reveal_strlit("Discutium");
        reveal_strlit("Triscutium");
        reveal_strlit("Hydrogeminium");
        reveal_strlit("Tessellatium");
        reveal_strlit("Flos");
        reveal_strlit("Asteria");
        reveal_strlit("Spirillum");
        reveal_strlit("Angula");
        reveal_strlit("Caterpillar");
        assert(genus_entry(0).0@.len() != "Caterpillar"@.len());
        assert(genus_entry(0).0@ != "Caterpillar"@);
        assert(genus_entry(1).0@.len() != "Caterpillar"@.len());
        assert(genus_entry(1).0@ != "Caterpillar"@);
        assert(genus_entry(2).0@.len() != "Caterpillar"@.len());
        assert(genus_entry(2).0@ != "Caterpillar"@);
        assert(genus_entry(3).0@.len() != "Caterpillar"@.len());
        assert(genus_entry(3).0@ != "Caterpillar"@);
        assert(genus_entry(4).0@.len() != "Caterpillar"@.len());
        assert(genus_entry(4).0@ != "Caterpillar"@);
        assert(genus_entry(5).0@.len() != "Caterpillar"@.len());
        assert(genus_entry(5).0@ != "Caterpillar"@);
        assert(genus_entry(6).0@.len() != "Caterpillar"@.len());
        assert(genus_entry(6).0@ != "Caterpillar"@);
        assert(genus_entry(7).0@.len() != "Caterpillar"@.len());
        assert(genus_entry(7).0@ != "Caterpillar"@);
        assert(genus_entry(8).0@.len() != "Caterpillar"@.len());
        assert(genus_entry(8).0@ != "Caterpillar"@);
        assert(genus_entry(9).0@.len() != "Caterpillar"@.len());
        assert(genus_entry(9).0@ != "Caterpillar"@);
        assert(genus_entry(10).0@.len() != "Caterpillar"@.len());
        assert(genus_entry(10).0@ != "Caterpillar"@);
        assert(genus_entry(11).0@.len() != "Caterpillar"@.len());
        assert(genus_entry(11).0@ != "Caterpillar"@);
        assert(genus_entry(12).0@.len() != "Caterpillar"@.len());
        assert(genus_entry(12).0@ != "Caterpillar"@);
        assert(genus_entry(13).0@.len() != "Caterpillar"@.len());
        assert(genus_entry(13).0@ != "Caterpillar"@);
        assert(genus_entry(14).0@.len() != "Caterpillar"@.len());
        assert(genus_entry(14).0@ != "Caterpillar"@);
        assert(genus_entry(15).0@.len() != "Caterpillar"@.len());
        assert(genus_entry(15).0@ != "Caterpillar"@);
        reveal_with_fuel(genus_display_from, 18);
    }
    assert(genus_display_of("Platyhelminthes"@) == "Platyhelminthes (扁虫目)"@) by {
        reveal_strlit("Orbium");
        reveal_strlit("Gyrorbium");
        reveal_strlit("Vagorbium");
        reveal_strlit("Synorbium");
        reveal_strlit("Trisynorbium");
        reveal_strlit("Parorbium");
        reveal_strlit("Triparorbium");
        reveal_strlit("Scutium");
        reveal_strlit("Discutium");
        reveal_strlit("Triscutium");
        reveal_strlit("Hydrogeminium");
        reveal_strlit("Tessellatium");
        reveal_strlit("Flos");
        reveal_strlit("Asteria");
        reveal_strlit("Spirillum");
        reveal_strlit("Angula");
        reveal_strlit("Caterpillar");
        reveal_strlit("Platyhelminthes");
        assert(genus_entry(0).0@.len() != "Platyhelminthes"@.len());
        assert(genus_entry(0).0@ != "Platyhelminthes"@);
        assert(genus_entry(1).0@.len() != "Platyhelminthes"@.len());
        assert(genus_entry(1).0@ != "Platyhelminthes"@);
        assert(genus_entry(2).0@.len() != "Platyhelminthes"@.len());
        assert(genus_entry(2).0@ != "Platyhelminthes"@);
        assert(genus_entry(3).0@.len() != "Platyhelminthes"@.len());
        assert(genus_entry(3).0@ != "Platyhelminthes"@);
        assert(genus_entry(4).0@.len() != "Platyhelminthes"@.len());
        assert(genus_entry(4).0@ != "Platyhelminthes"@);
        assert(genus_entry(5).0@.len() != "Platyhelminthes"@.len());
        assert(genus_entry(5).0@ != "Platyhelminthes"@);
        assert(genus_entry(6).0@.len() != "Platyhelminthes"@.len());
        assert(genus_entry(6).0@ != "Platyhelminthes"@);
        assert(genus_entry(7).0@.len() != "Platyhelminthes"@.len());
        assert(genus_entry(7).0@ != "Platyhelminthes"@);
        assert(genus_entry(8).0@.len() != "Platyhelminthes"@.len());
        assert(genus_entry(8).0@ != "Platyhelminthes"@);
        assert(genus_entry(9).0@.len() != "Platyhelminthes"@.len());
        assert(genus_entry(9).0@ != "Platyhelminthes"@);
        assert(genus_entry(10).0@.len() != "Platyhelminthes"@.len());
        assert(genus_entry(10).0@ != "Platyhelminthes"@);
        assert(genus_entry(11).0@.len() != "Platyhelminthes"@.len());
        assert(genus_entry(11).0@ != "Platyhelminthes"@);
        assert(genus_entry(12).0@.len() != "Platyhelminthes"@.len());
        assert(genus_entry(12).0@ != "Platyhelminthes"@);
        assert(genus_entry(13).0@.len() != "Platyhelminthes"@.len());
        assert(genus_entry(13).0@ != "Platyhelminthes"@);
        assert(genus_entry(14).0@.len() != "Platyhelminthes"@.len());
        assert(genus_entry(14).0@ != "Platyhelminthes"@);
        assert(genus_entry(15).0@.len() != "Platyhelminthes"@.len());
        assert(genus_entry(15).0@ != "Platyhelminthes"@);
        assert(genus_entry(16).0@.len() != "Platyhelminthes"@.len());
        assert(genus_entry(16).0@ != "Platyhelminthes"@);
        reveal_with_fuel(genus_display_from, 19);
    }
    assert(genus_display_of("Lacuna"@) == "Lacuna (环空目)"@) by {
        reveal_strlit("Orbium");
        reveal_strlit("Gyrorbium");
        reveal_strlit("Vagorbium");
        reveal_strlit("Synorbium");
        reveal_strlit("Trisynorbium");
        reveal_strlit("Parorbium");
        reveal_strlit("Triparorbium");
        reveal_strlit("Scutium");
        reveal_strlit("Discutium");
        reveal_strlit("Triscutium");
        reveal_strlit("Hydrogeminium");
        reveal_strlit("Tessellatium");
        reveal_strlit("Flos");
        reveal_strlit("Asteria");
        reveal_strlit("Spirillum");
        reveal_strlit("Angula");
        reveal_strlit("Caterpillar");
        reveal_strlit("Platyhelminthes");
        reveal_strlit("Lacuna");
        assert(genus_entry(0).0@[0] != "Lacuna"@[0]);
        assert(genus_entry(0).0@ != "Lacuna"@);
        assert(genus_entry(1).0@.len() != "Lacuna"@.len());
        assert(genus_entry(1).0@ != "Lacuna"@);
        assert(genus_entry(2).0@.len() != "Lacuna"@.len());
        assert(genus_entry(2).0@ != "Lacuna"@);
        assert(genus_entry(3).0@.len() != "Lacuna"@.len());
        assert(genus_entry(3).0@ != "Lacuna"@);
        assert(genus_entry(4).0@.len() != "Lacuna"@.len());
        assert(genus_entry(4).0@ != "Lacuna"@);
        assert(genus_entry(5).0@.len() != "Lacuna"@.len());
        assert(genus_entry(5).0@ != "Lacuna"@);
        assert(genus_entry(6).0@.len() != "Lacuna"@.len());
        assert(genus_entry(6).0@ != "Lacuna"@);
        assert(genus_entry(7).0@.len() != "Lacuna"@.len());
        assert(genus_entry(7).0@ != "Lacuna"@);
        assert(genus_entry(8).0@.len() != "Lacuna"@.len());
        assert(genus_entry(8).0@ != "Lacuna"@);
        assert(genus_entry(9).0@.len() != "Lacuna"@.len());
        assert(genus_entry(9).0@ != "Lacuna"@);
        assert(genus_entry(10).0@.len() != "Lacuna"@.len());
        assert(genus_entry(10).0@ != "Lacuna"@);
        assert(genus_entry(11).0@.len() != "Lacuna"@.len());
        assert(genus_entry(11).0@ != "Lacuna"@);
        assert(genus_entry(12).0@.len() != "Lacuna"@.len());
        assert(genus_entry(12).0@ != "Lacuna"@);
        assert(genus_entry(13).0@.len() != "Lacuna"@.len());
        assert(genus_entry(13).0@ != "Lacuna"@);
        assert(genus_entry(14).0@.len() != "Lacuna"@.len());
        assert(genus_entry(14).0@ != "Lacuna"@);
        assert(genus_entry(15).0@[0] != "Lacuna"@[0]);
        assert(genus_entry(15).0@ != "Lacuna"@);
        assert(genus_entry(16).0@.len() != "Lacuna"@.len());
        assert(genus_entry(16).0@ != "Lacuna"@);
        assert(genus_entry(17).0@.len() != "Lacuna"@.len());
        assert(genus_entry(17).0@ != "Lacuna"@);
        reveal_with_fuel(genus_display_from, 20);
    }
    assert(genus_display_of("Medusa"@) == "Medusa (水母目)"@) by {
        reveal_strlit("Orbium");
        reveal_strlit("Gyrorbium");
        reveal_strlit("Vagorbium");
        reveal_strlit("Synorbium");
        reveal_strlit("Trisynorbium");
        reveal_strlit("Parorbium");
        reveal_strlit("Triparorbium");
        reveal_strlit("Scutium");
        reveal_strlit("Discutium");
        reveal_strlit("Triscutium");
        reveal_strlit("Hydrogeminium");
        reveal_strlit("Tessellatium");
        reveal_strlit("Flos");
        reveal_strlit("Asteria");
        reveal_strlit("Spirillum");
        reveal_strlit("Angula");
        reveal_strlit("Caterpillar");
        reveal_strlit("Platyhelminthes");
        reveal_strlit("Lacuna");
        reveal_strlit("Medusa");
        assert(genus_entry(0).0@[0] != "Medusa"@[0]);
        assert(genus_entry(0).0@ != "Medusa"@);
        assert(genus_entry(1).0@.len() != "Medusa"@.len());
        assert(genus_entry(1).0@ != "Medusa"@);
        assert(genus_entry(2).0@.len() != "Medusa"@.len());
        assert(genus_entry(2).0@ != "Medusa"@);
        assert(genus_entry(3).0@.len() != "Medusa"@.len());
        assert(genus_entry(3).0@ != "Medusa"@);
        assert(genus_entry(4).0@.len() != "Medusa"@.len());
        assert(genus_entry(4).0@ != "Medusa"@);
        assert(genus_entry(5).0@.len() != "Medusa"@.len());
        assert(genus_entry(5).0@ != "Medusa"@);
        assert(genus_entry(6).0@.len() != "Medusa"@.len());
        assert(genus_entry(6).0@ != "Medusa"@);
        assert(genus_entry(7).0@.len() != "Medusa"@.len());
        assert(genus_entry(7).0@ != "Medusa"@);
        assert(genus_entry(8).0@.len() != "Medusa"@.len());
        assert(genus_entry(8).0@ != "Medusa"@);
        assert(genus_entry(9).0@.len() != "Medusa"@.len());
        assert(genus_entry(9).0@ != "Medusa"@);
        assert(genus_entry(10).0@.len() != "Medusa"@.len());
        assert(genus_entry(10).0@ != "Medusa"@);
        assert(genus_entry(11).0@.len() != "Medusa"@.len());
        assert(genus_entry(11).0@ != "Medusa"@);
        assert(genus_entry(12).0@.len() != "Medusa"@.len());
        assert(genus_entry(12).0@ != "Medusa"@);
        assert(genus_entry(13).0@.len() != "Medusa"@.len());
        assert(genus_entry(13).0@ != "Medusa"@);
        assert(genus_entry(14).0@.len() != "Medusa"@.len());
        assert(genus_entry(14).0@ != "Medusa"@);
        assert(genus_entry(15).0@[0] != "Medusa"@[0]);
        assert(genus_entry(15).0@ != "Medusa"@);
        assert(genus_entry(16).0@.len() != "Medusa"@.len());
        assert(genus_entry(16).0@ != "Medusa"@);
        assert(genus_entry(17).0@.len() != "Medusa"@.len());
        assert(genus_entry(17).0@ != "Medusa"@);
        assert(genus_entry(18).0@[0] != "Medusa"@[0]);
        assert(genus_entry(18).0@ != "Medusa"@);
        reveal_with_fuel(genus_display_from, 21);
    }
    assert(genus_display_of("Anemone"@) == "Anemone (海葵目)"@) by {
        reveal_strlit("Orbium");
        reveal_strlit("Gyrorbium");
        reveal_strlit("Vagorbium");
        reveal_strlit("Synorbium");
        reveal_strlit("Trisynorbium");
        reveal_strlit("Parorbium");
        reveal_strlit("Triparorbium");
        reveal_strlit("Scutium");
        reveal_strlit("Discutium");
        reveal_strlit("Triscutium");
        reveal_strlit("Hydrogeminium");
        reveal_strlit("Tessellatium");
        reveal_strlit("Flos");
        reveal_strlit("Asteria");
        reveal_strlit("Spirillum");
        reveal_strlit("Angula");
        reveal_strlit("Caterpillar");
        reveal_strlit("Platyhelminthes");
        reveal_strlit("Lacuna");
        reveal_strlit("Medusa");
        reveal_strlit("Anemone");
        assert(genus_entry(0).0@.len() != "Anemone"@.len());
        assert(genus_entry(0).0@ != "Anemone"@);
        assert(genus_entry(1).0@.len() != "Anemone"@.len());
        assert(genus_entry(1).0@ != "Anemone"@);
        assert(genus_entry(2).0@.len() != "Anemone"@.len());
        assert(genus_entry(2).0@ != "Anemone"@);
        assert(genus_entry(3).0@.len() != "Anemone"@.len());
        assert(genus_entry(3).0@ != "Anemone"@);
        assert(genus_entry(4).0@.len() != "Anemone"@.len());
        assert(genus_entry(4).0@ != "Anemone"@);
        assert(genus_entry(5).0@.len() != "Anemone"@.len());
        assert(genus_entry(5).0@ != "Anemone"@);
        assert(genus_entry(6).0@.len() != "Anemone"@.len());
        assert(genus_entry(6).0@ != "Anemone"@);
        assert(genus_entry(7).0@[0] != "Anemone"@[0]);
        assert(genus_entry(7).0@ != "Anemone"@);
        assert(genus_entry(8).0@.len() != "Anemone"@.len());
        assert(genus_entry(8).0@ != "Anemone"@);
        assert(genus_entry(9).0@.len() != "Anemone"@.len());
        assert(genus_entry(9).0@ != "Anemone"@);
        assert(genus_entry(10).0@.len() != "Anemone"@.len());
        assert(genus_entry(10).0@ != "Anemone"@);
        assert(genus_entry(11).0@.len() != "Anemone"@.len());
        assert(genus_entry(11).0@ != "Anemone"@);
        assert(genus_entry(12).0@.len() != "Anemone"@.len());
        assert(genus_entry(12).0@ != "Anemone"@);
        assert(genus_entry(13).0@[1] != "Anemone"@[1]);
        assert(genus_entry(13).0@ != "Anemone"@);
        assert(genus_entry(14).0@.len() != "Anemone"@.len());
        assert(genus_entry(14).0@ != "Anemone"@);
        assert(genus_entry(15).0@.len() != "Anemone"@.len());
        assert(genus_entry(15).0@ != "Anemone"@);
        assert(genus_entry(16).0@.len() != "Anemone"@.len());
        assert(genus_entry(16).0@ != "Anemone"@);
        assert(genus_entry(17).0@.len() != "Anemone"@.len());
        assert(genus_entry(17).0@ != "Anemone"@);
        assert(genus_entry(18).0@.len() != "Anemone"@.len());
        assert(genus_entry(18).0@ != "Anemone"@);
        assert(genus_entry(19).0@.len() != "Anemone"@.len());
        assert(genus_entry(19).0@ != "Anemone"@);
        reveal_with_fuel(genus_display_from, 22);
    }
}

/// A genus outside the catalogue is displayed by its own name.
pub proof fn law_unknown_genus_displays_itself(genus: Seq<char>)
    requires
        genus != "Orbium"@,
        genus != "Gyrorbium"@,
        genus != "Vagorbium"@,
        genus != "Synorbium"@,
        genus != "Trisynorbium"@,
        genus != "Parorbium"@,
        genus != "Triparorbium"@,
        genus != "Scutium"@,
        genus != "Discutium"@,
        genus != "Triscutium"@,
        genus != "Hydrogeminium"@,
        genus != "Tessellatium"@,
        genus != "Flos"@,
        genus != "Asteria"@,
        genus != "Spirillum"@,
        genus != "Angula"@,
        genus != "Caterpillar"@,
        genus != "Platyhelminthes"@,
        genus != "Lacuna"@,
        genus != "Medusa"@,
        genus != "Anemone"@,
    ensures
        genus_display_of(genus) == genus,
{
    reveal_with_fuel(genus_display_from, 22);
}

/// The run of characters that opens `s`, up to its first white space.
pub open spec fn leading_word(s: Seq<char>) -> Seq<char>
    decreases s.len(),
{
    if s.len() == 0 || is_white_space(s[0]) {
        Seq::empty()
    } else {
        seq![s[0]] + leading_word(s.drop_first())
    }
}

/// The first white-space separated word of `s`; empty when `s` holds only white space.
pub open spec fn first_word(s: Seq<char>) -> Seq<char>
    decreases s.len(),
{
    if s.len() == 0 {
        Seq::empty()
    } else if is_white_space(s[0]) {
        first_word(s.drop_first())
    } else {
        leading_word(s)
    }
}

/// The genus named by a shape name: its first word, or the whole name when it has none.
pub open spec fn genus_of(name: Seq<char>) -> Seq<char> {
    if first_word(name).len() == 0 {
        name
    } else {
        first_word(name)
    }
}

proof fn lemma_first_word_skip(s: Seq<char>, k: int)
    requires
        0 <= k <= s.len(),
        forall|j: int| 0 <= j < k ==> is_white_space(#[trigger] s[j]),
    ensures
        first_word(s) == first_word(s.skip(k)),
    decreases k,
{
    if k > 0 {
        assert(s.skip(1) =~= s.drop_first());
        lemma_first_word_skip(s.drop_first(), k - 1);
        assert(s.drop_first().skip(k - 1) =~= s.skip(k));
    } else {
        assert(s.skip(0) =~= s);
    }
}

proof fn lemma_leading_word_run(s: Seq<char>, i: int, j: int)
    requires
        0 <= i <= j <= s.len(),
        forall|t: int| i <= t < j ==> !is_white_space(#[trigger] s[t]),
    ensures
        leading_word(s.skip(i)) == s.subrange(i, j) + leading_word(s.skip(j)),
    decreases j - i,
{
    if i == j {
        assert(s.subrange(i, j) =~= Seq::<char>::empty());
        assert(Seq::<char>::empty() + leading_word(s.skip(j)) =~= leading_word(s.skip(j)));
    } else {
        lemma_leading_word_run(s, i + 1, j);
        assert(s.skip(i).drop_first() =~= s.skip(i + 1));
        assert(s.skip(i)[0] == s[i]);
        assert(s.subrange(i, j) =~= seq![s[i]] + s.subrange(i + 1, j));
        assert(seq![s[i]] + (s.subrange(i + 1, j) + leading_word(s.skip(j))) =~= (seq![s[i]] + s.subrange(i + 1, j)) + leading_word(s.skip(j)));
    }
}

proof fn lemma_leading_word_no_white_space(s: Seq<char>)
    ensures
        forall|i: int| 0 <= i < leading_word(s).len() ==> !is_white_space(#[trigger] leading_word(s)[i]),
    decreases s.len(),
{
    if s.len() > 0 && !is_white_space(s[0]) {
        lemma_leading_word_no_white_space(s.drop_first());
        let rest = leading_word(s.drop_first());
        assert forall|i: int| 0 <= i < leading_word(s).len() implies !is_white_space(#[trigger] leading_word(s)[i]) by {
            if i > 0 {
                assert(leading_word(s)[i] == rest[i - 1]);
            }
        }
    }
}

proof fn lemma_first_word_no_white_space(s: Seq<char>)
    ensures
        forall|i: int| 0 <= i < first_word(s).len() ==> !is_white_space(#[trigger] first_word(s)[i]),
    decreases s.len(),
{
    if s.len() > 0 {
        if is_white_space(s[0]) {
            lemma_first_word_no_white_space(s.drop_first());
            assert(first_word(s) == first_word(s.drop_first()));
        } else {
            lemma_leading_word_no_white_space(s);
            assert(first_word(s) == leading_word(s));
        }
    }
}

proof fn lemma_word_leads_itself(w: Seq<char>)
    requires
        forall|i: int| 0 <= i < w.len() ==> !is_white_space(#[trigger] w[i]),
    ensures
        leading_word(w) == w,
    decreases w.len(),
{
    if w.len() == 0 {
        assert(leading_word(w) =~= w);
    } else {
        assert forall|i: int| 0 <= i < w.drop_first().len() implies !is_white_space(#[trigger] w.drop_first()[i]) by {
            assert(w.drop_first()[i] == w[i + 1]);
        }
        lemma_word_leads_itself(w.drop_first());
        assert(w =~= seq![w[0]] + w.drop_first());
    }
}

/// The genus of a genus is itself: extracting the genus twice changes nothing.
pub proof fn law_genus_idempotent(name: Seq<char>)
    ensures
        genus_of(genus_of(name)) == genus_of(name),
{
    let w = first_word(name);
    if w.len() > 0 {
        lemma_first_word_no_white_space(name);
        lemma_word_leads_itself(w);
        assert(!is_white_space(w[0]));
        assert(first_word(w) == leading_word(w));
    }
}

/// A genus holds no white space, unless the name that it came from holds only white space.
pub proof fn law_genus_is_one_word(name: Seq<char>)
    ensures
        first_word(name).len() > 0 ==> forall|i: int| 0 <= i < genus_of(name).len() ==> !is_white_space(#[trigger] genus_of(name)[i]),
{
    lemma_first_word_no_white_space(name);
}

/// The genus of a shape name: its first white-space separated word, or the
/// whole name when it holds no word.
pub fn extract_genus(name: &str) -> (r: String)
    ensures
        r@ == genus_of(name@),
{
    let cs = chars_of(name);
    let n = cs.len();
    let mut a: usize = 0;
    while a < n && is_white_space_char(cs[a])
        invariant
            n == cs@.len(),
            a <= n,
            forall|j: int| 0 <= j < a ==> is_white_space(#[trigger] cs@[j]),
        decreases n - a,
    {
        a = a + 1;
    }
    let mut word = String::new();
    let mut b: usize = a;
    while b < n && !is_white_space_char(cs[b])
        invariant
            n == cs@.len(),
            a <= b <= n,
            forall|t: int| a <= t < b ==> !is_white_space(#[trigger] cs@[t]),
            word@ == cs@.subrange(a as int, b as int),
        decreases n - b,
    {
        push_char(&mut word, cs[b]);
        assert(cs@.subrange(a as int, b as int).push(cs@[b as int]) =~= cs@.subrange(a as int, b + 1));
        b = b + 1;
    }
    proof {
        let s = cs@;
        lemma_first_word_skip(s, a as int);
        lemma_leading_word_run(s, a as int, b as int);
        assert(leading_word(s.skip(b as int)) =~= Seq::<char>::empty()) by {
            if b < n {
                assert(s.skip(b as int)[0] == s[b as int]);
            }
        }
        assert(s.subrange(a as int, b as int) + Seq::<char>::empty() =~= s.subrange(a as int, b as int));
        if a < n {
            assert(s.skip(a as int)[0] == s[a as int]);
            assert(first_word(s.skip(a as int)) == leading_word(s.skip(a as int)));
        } else {
            assert(s.skip(a as int) =~= Seq::<char>::empty());
        }
    }
    if a == b {
        name.to_owned()
    } else {
        word
    }
}


/// A pattern that can be placed on a grid: cell values, their offsets from the
/// pattern's centre and their channels, with the rule that the pattern lives under.
#[derive(Clone, Debug)]
pub struct Shape<F> {
    pub category: String,
    pub name: String,
    pub genus: String,
    pub genus_display: String,
    pub optimal_rule: Rule<F>,
    pub cells_state: Vec<F>,
    pub cells_pos: Vec<IVec2>,
    pub cells_channel: Vec<usize>,
}

impl<F> Shape<F> {
    /// A shape in no category, whose genus and display name follow from its name.
    pub fn new(
        name: String,
        optimal_rule: Rule<F>,
        cells_state: Vec<F>,
        cells_pos: Vec<IVec2>,
        cells_channel: Vec<usize>,
    ) -> (r: Self)
        ensures
            r.category@ == Seq::<char>::empty(),
            r.name == name,
            r.genus@ == genus_of(name@),
            r.genus_display@ == genus_display_of(genus_of(name@)),
            r.optimal_rule == optimal_rule,
            r.cells_state == cells_state,
            r.cells_pos == cells_pos,
            r.cells_channel == cells_channel,
    {
        let genus = extract_genus(name.as_str());
        let genus_display = get_genus_display(genus.as_str()).to_owned();
        Shape {
            category: String::new(),
            name,
            genus,
            genus_display,
            optimal_rule,
            cells_state,
            cells_pos,
            cells_channel,
        }
    }

    /// This shape with the cells of `other` appended after its own.
    pub fn merge_channel(self, other: Self) -> (r: Self)
        ensures
            r == (Shape {
                cells_state: r.cells_state,
                cells_pos: r.cells_pos,
                cells_channel: r.cells_channel,
                ..self
            }),
            r.cells_state@ == self.cells_state@ + other.cells_state@,
            r.cells_pos@ == self.cells_pos@ + other.cells_pos@,
            r.cells_channel@ == self.cells_channel@ + other.cells_channel@,
    {
        let mut s = self;
        let mut o = other;
        s.cells_state.append(&mut o.cells_state);
        s.cells_pos.append(&mut o.cells_pos);
        s.cells_channel.append(&mut o.cells_channel);
        s
    }
}

/// The live cells among the first `n` values of row `y` of a channel grid of
/// `rows` rows, each with its offset from `origin` (rows counted upward from the bottom).
pub open spec fn live_row<F>(row: Seq<F>, live: Seq<bool>, y: int, rows: int, origin: IVec2, n: int) -> Seq<(F, IVec2)>
    decreases n,
{
    if n <= 0 {
        Seq::empty()
    } else {
        let prev = live_row(row, live, y, rows, origin, n - 1);
        if live[n - 1] {
            prev.push((row[n - 1], IVec2 { x: (n - 1 - origin.x) as i32, y: (rows - 1 - y - origin.y) as i32 }))
        } else {
            prev
        }
    }
}

/// The live cells of the first `n` rows of a channel grid, row after row.
pub open spec fn live_cells<F>(grid: Seq<Vec<F>>, live: Seq<Vec<bool>>, origin: IVec2, n: int) -> Seq<(F, IVec2)>
    decreases n,
{
    if n <= 0 {
        Seq::empty()
    } else {
        live_cells(grid, live, origin, n - 1) + live_row(grid[n - 1]@, live[n - 1]@, n - 1, grid.len() as int, origin,
            grid[n - 1]@.len() as int)
    }
}

/// The centre of a channel grid: half its width (taken from its first row) and half its height.
pub open spec fn grid_origin<F>(grid: Seq<Vec<F>>) -> IVec2 {
    IVec2 { x: (grid[0]@.len() / 2) as i32, y: (grid.len() / 2) as i32 }
}

/// What `from_channel_grid` asks of a channel grid and its mask of live cells.
pub open spec fn channel_grid_ok<F>(grid: Seq<Vec<F>>, live: Seq<Vec<bool>>) -> bool {
    &&& 0 < grid.len() <= i32::MAX
    &&& live.len() == grid.len()
    &&& forall|y: int| 0 <= y < grid.len() ==> (#[trigger] grid[y])@.len() <= i32::MAX
        && live[y]@.len() == grid[y]@.len()
}

/// Whether `shape` holds exactly the cells `cells`, all on channel `channel`.
pub open spec fn holds_cells<F>(shape: Shape<F>, cells: Seq<(F, IVec2)>, channel: usize) -> bool {
    &&& shape.cells_state@.len() == cells.len()
    &&& shape.cells_pos@.len() == cells.len()
    &&& shape.cells_channel@.len() == cells.len()
    &&& forall|k: int| 0 <= k < cells.len() ==> shape.cells_state@[k] == (#[trigger] cells[k]).0
        && shape.cells_pos@[k] == cells[k].1 && shape.cells_channel@[k] == channel
}

impl<F: Copy> Shape<F> {
    /// The shape drawn on one channel by a grid of values, read top row first:
    /// one cell for each value that `live` marks, at its offset from the grid's
    /// centre with rows counted upward.
    pub fn from_channel_grid(
        name: String,
        optimal_rule: Rule<F>,
        channel: usize,
        grid: &Vec<Vec<F>>,
        live: &Vec<Vec<bool>>,
    ) -> (r: Self)
        requires
            channel_grid_ok(grid@, live@),
        ensures
            r.category@ == Seq::<char>::empty(),
            r.name == name,
            r.genus@ == genus_of(name@),
            r.genus_display@ == genus_display_of(genus_of(name@)),
            r.optimal_rule == optimal_rule,
            holds_cells(r, live_cells(grid@, live@, grid_origin(grid@), grid@.len() as int), channel),
    {
        let rows = grid.len() as i32;
        let cols = grid[0].len() as i32;
        let origin = IVec2::new(cols / 2, rows / 2);
        let mut cells_state: Vec<F> = Vec::new();
        let mut cells_pos: Vec<IVec2> = Vec::new();
        let mut cells_channel: Vec<usize> = Vec::new();
        let nrows = grid.len();
        let ghost g = grid@;
        let ghost l = live@;
        let mut y: usize = 0;
        while y < nrows
            invariant
                nrows == g.len() == l.len(),
                g == grid@,
                l == live@,
                channel_grid_ok(g, l),
                rows == nrows,
                origin == grid_origin(g),
                y <= nrows,
                ({
                    let acc = live_cells(g, l, origin, y as int);
                    &&& cells_state@.len() == acc.len()
                    &&& cells_pos@.len() == acc.len()
                    &&& cells_channel@.len() == acc.len()
                    &&& forall|k: int| 0 <= k < acc.len() ==> cells_state@[k] == (#[trigger] acc[k]).0
                        && cells_pos@[k] == acc[k].1 && cells_channel@[k] == channel
                }),
            decreases nrows - y,
        {
            let row = &grid[y];
            let lrow = &live[y];
            let ncols = row.len();
            let ghost before = live_cells(g, l, origin, y as int);
            let mut x: usize = 0;
            while x < ncols
                invariant
                    nrows == g.len() == l.len(),
                    g == grid@,
                    l == live@,
                    channel_grid_ok(g, l),
                    rows == nrows,
                    origin == grid_origin(g),
                    y < nrows,
                    row@ == g[y as int]@,
                    lrow@ == l[y as int]@,
                    ncols == row@.len() == lrow@.len(),
                    ncols <= i32::MAX,
                    x <= ncols,
                    before == live_cells(g, l, origin, y as int),
                    ({
                        let acc = before + live_row(row@, lrow@, y as int, rows as int, origin, x as int);
                        &&& cells_state@.len() == acc.len()
                        &&& cells_pos@.len() == acc.len()
                        &&& cells_channel@.len() == acc.len()
                        &&& forall|k: int| 0 <= k < acc.len() ==> cells_state@[k] == (#[trigger] acc[k]).0
                            && cells_pos@[k] == acc[k].1 && cells_channel@[k] == channel
                    }),
                decreases ncols - x,
            {
                let ghost acc0 = before + live_row(row@, lrow@, y as int, rows as int, origin, x as int);
                if lrow[x] {
                    cells_state.push(row[x]);
                    cells_pos.push(IVec2::new(x as i32, rows - 1 - y as i32).minus(origin));
                    cells_channel.push(channel);
                    let ghost acc1 = before + live_row(row@, lrow@, y as int, rows as int, origin, x + 1);
                    assert(acc1 =~= acc0.push(acc1[acc0.len() as int]));
                } else {
                    assert(before + live_row(row@, lrow@, y as int, rows as int, origin, x + 1) == acc0);
                }
                x = x + 1;
            }
            assert(live_cells(g, l, origin, y + 1) == before + live_row(row@, lrow@, y as int, rows as int, origin, x as int));
            y = y + 1;
        }
        Self::new(name, optimal_rule, cells_state, cells_pos, cells_channel)
    }
}

/// The live cells of the first `n` channel grids, channel after channel, each
/// with the channel that it belongs to.
pub open spec fn channel_cells<F>(channels: Seq<Vec<Vec<F>>>, live: Seq<Vec<Vec<bool>>>, n: int) -> Seq<(F, IVec2, usize)>
    decreases n,
{
    if n <= 0 {
        Seq::empty()
    } else {
        let grid = channels[n - 1]@;
        channel_cells(channels, live, n - 1) + live_cells(grid, live[n - 1]@, grid_origin(grid), grid.len() as int)
            .map_values(|c: (F, IVec2)| (c.0, c.1, (n - 1) as usize))
    }
}

/// Whether `shape` holds exactly the cells `cells`, each on its own channel.
pub open spec fn holds_channel_cells<F>(shape: Shape<F>, cells: Seq<(F, IVec2, usize)>) -> bool {
    &&& shape.cells_state@.len() == cells.len()
    &&& shape.cells_pos@.len() == cells.len()
    &&& shape.cells_channel@.len() == cells.len()
    &&& forall|k: int| 0 <= k < cells.len() ==> shape.cells_state@[k] == (#[trigger] cells[k]).0
        && shape.cells_pos@[k] == cells[k].1 && shape.cells_channel@[k] == cells[k].2
}

impl<F: Copy> Shape<F> {
    /// The shape of a catalogue entry: its name and rule, and one grid of values
    /// per channel, of which `live` marks the cells that belong to the shape.
    pub fn from_channels(
        name: String,
        rule: Rule<F>,
        channels: &Vec<Vec<Vec<F>>>,
        live: &Vec<Vec<Vec<bool>>>,
    ) -> (r: Self)
        requires
            live@.len() == channels@.len(),
            forall|c: int| 0 <= c < channels@.len() ==> channel_grid_ok((#[trigger] channels@[c])@, live@[c]@),
        ensures
            r.category@ == Seq::<char>::empty(),
            r.name == name,
            r.genus@ == genus_of(name@),
            r.genus_display@ == genus_display_of(genus_of(name@)),
            r.optimal_rule == rule,
            holds_channel_cells(r, channel_cells(channels@, live@, channels@.len() as int)),
    {
        let n = channels.len();
        let mut parts: Vec<Shape<F>> = Vec::new();
        let mut c: usize = 0;
        while c < n
            invariant
                n == channels@.len() == live@.len(),
                forall|k: int| 0 <= k < channels@.len() ==> channel_grid_ok((#[trigger] channels@[k])@, live@[k]@),
                c <= n,
                parts@.len() == c,
                forall|k: int| 0 <= k < c ==> {
                    let grid = channels@[k]@;
                    holds_cells(#[trigger] parts@[k], live_cells(grid, live@[k]@, grid_origin(grid), grid.len() as int), k as usize)
                },
            decreases n - c,
        {
            let part = Self::from_channel_grid(String::new(), rule.clone(), c, &channels[c], &live[c]);
            parts.push(part);
            c = c + 1;
        }
        let mut shape = Self::new(name, rule, Vec::new(), Vec::new(), Vec::new());
        let ghost s0 = shape;
        assert(channel_cells(channels@, live@, 0) =~= Seq::<(F, IVec2, usize)>::empty());
        let mut parts = parts;
        while parts.len() > 0
            invariant
                n == channels@.len() == live@.len(),
                parts@.len() <= n,
                forall|k: int| 0 <= k < parts@.len() ==> {
                    let grid = channels@[n - parts@.len() + k]@;
                    holds_cells(#[trigger] parts@[k], live_cells(grid, live@[n - parts@.len() + k]@, grid_origin(grid), grid.len() as int), (n - parts@.len() + k) as usize)
                },
                shape == (Shape { cells_state: shape.cells_state, cells_pos: shape.cells_pos, cells_channel: shape.cells_channel, ..s0 }),
                holds_channel_cells(shape, channel_cells(channels@, live@, n - parts@.len())),
            decreases parts@.len(),
        {
            let ghost k = n - parts@.len();
            let part = parts.remove(0);
            let ghost grid = channels@[k]@;
            let ghost prev = channel_cells(channels@, live@, k);
            let ghost added = live_cells(grid, live@[k]@, grid_origin(grid), grid.len() as int)
                .map_values(|c: (F, IVec2)| (c.0, c.1, k as usize));
            assert(channel_cells(channels@, live@, k + 1) == prev + added);
            shape = shape.merge_channel(part);
            assert forall|j: int| 0 <= j < parts@.len() implies {
                let grid = channels@[n - parts@.len() + j]@;
                holds_cells(#[trigger] parts@[j], live_cells(grid, live@[n - parts@.len() + j]@, grid_origin(grid), grid.len() as int), (n - parts@.len() + j) as usize)
            } by {
                assert(n - parts@.len() + j == k + 1 + j);
            }
            assert forall|j: int| 0 <= j < prev.len() + added.len() implies shape.cells_state@[j] == (#[trigger] (prev + added)[j]).0
                && shape.cells_pos@[j] == (prev + added)[j].1 && shape.cells_channel@[j] == (prev + added)[j].2 by {
                if j >= prev.len() {
                    assert(part.cells_state@[j - prev.len()] == live_cells(grid, live@[k]@, grid_origin(grid), grid.len() as int)[j - prev.len()].0);
                }
            }
        }
        shape
    }
}

/// Whether the cell `p` lies on the ring between radii `r_inner` and `r_outer`
/// (both included) around the origin; a radius below zero leaves its side open.
pub open spec fn in_ring(p: IVec2, r_inner: int, r_outer: int) -> bool {
    let d2 = p.x * p.x + p.y * p.y;
    &&& r_outer >= 0
    &&& (r_inner <= 0 || r_inner * r_inner <= d2)
    &&& d2 <= r_outer * r_outer
}

proof fn lemma_ring_bounds(p: IVec2, r_inner: int, r_outer: int)
    requires
        in_ring(p, r_inner, r_outer),
    ensures
        -r_outer <= p.x <= r_outer,
        -r_outer <= p.y <= r_outer,
{
    let x = p.x as int;
    let y = p.y as int;
    assert(x * x >= 0 && y * y >= 0) by (nonlinear_arith);
    if x > r_outer || x < -r_outer {
        assert(x * x > r_outer * r_outer) by (nonlinear_arith) requires x > r_outer || x < -r_outer, r_outer >= 0;
    }
    if y > r_outer || y < -r_outer {
        assert(y * y > r_outer * r_outer) by (nonlinear_arith) requires y > r_outer || y < -r_outer, r_outer >= 0;
    }
}

/// The cells of a ring shape: every cell between radii `r_inner` and `r_outer`
/// around the origin, each once, by increasing `x`, then increasing `y`.
pub fn ring_offsets(r_inner: i32, r_outer: i32) -> (v: Vec<IVec2>)
    requires
        r_outer < i32::MAX,
    ensures
        forall|j: int| 0 <= j < v@.len() ==> in_ring(#[trigger] v@[j], r_inner as int, r_outer as int),
        forall|j: int, k: int| 0 <= j < k < v@.len() ==> lex_lt(#[trigger] v@[j], #[trigger] v@[k]),
        forall|p: IVec2| in_ring(p, r_inner as int, r_outer as int) ==> #[trigger] v@.contains(p),
{
    let mut v: Vec<IVec2> = Vec::new();
    if r_outer < 0 {
        return v;
    }
    let ri = r_inner as i64;
    let ro = r_outer as i64;
    let mut x: i32 = -r_outer;
    assert forall|p: IVec2| in_ring(p, r_inner as int, r_outer as int) && p.x < x implies #[trigger] v@.contains(p) by {
        lemma_ring_bounds(p, r_inner as int, r_outer as int);
    }
    while x <= r_outer
        invariant
            0 <= r_outer < i32::MAX,
            ri == r_inner,
            ro == r_outer,
            -r_outer <= x <= r_outer + 1,
            forall|j: int| 0 <= j < v@.len() ==> in_ring(#[trigger] v@[j], r_inner as int, r_outer as int) && v@[j].x < x,
            forall|j: int, k: int| 0 <= j < k < v@.len() ==> lex_lt(#[trigger] v@[j], #[trigger] v@[k]),
            forall|p: IVec2| in_ring(p, r_inner as int, r_outer as int) && p.x < x ==> #[trigger] v@.contains(p),
        decreases r_outer + 1 - x,
    {
        let mut y: i32 = -r_outer;
        assert forall|p: IVec2| in_ring(p, r_inner as int, r_outer as int) && lex_lt(p, IVec2 { x, y }) implies #[trigger] v@.contains(p) by {
            lemma_ring_bounds(p, r_inner as int, r_outer as int);
        }
        while y <= r_outer
            invariant
                0 <= r_outer < i32::MAX,
                ri == r_inner,
                ro == r_outer,
                -r_outer <= x <= r_outer,
                -r_outer <= y <= r_outer + 1,
                forall|j: int| 0 <= j < v@.len() ==> in_ring(#[trigger] v@[j], r_inner as int, r_outer as int)
                    && lex_lt(v@[j], IVec2 { x, y }),
                forall|j: int, k: int| 0 <= j < k < v@.len() ==> lex_lt(#[trigger] v@[j], #[trigger] v@[k]),
                forall|p: IVec2| in_ring(p, r_inner as int, r_outer as int) && lex_lt(p, IVec2 { x, y }) ==> #[trigger] v@.contains(p),
            decreases r_outer + 1 - y,
        {
            assert(0 <= x * x <= r_outer * r_outer && 0 <= y * y <= r_outer * r_outer && r_outer * r_outer <= 4611686009837453316) by (nonlinear_arith)
                requires -r_outer <= x <= r_outer, -r_outer <= y <= r_outer, 0 <= r_outer <= 2147483646;
            let xl = x as i64;
            let yl = y as i64;
            let d2 = xl * xl + yl * yl;
            let ghost prev = v@;
            let cur = IVec2::new(x, y);
            proof {
                if r_inner > 0 {
                    assert(0 <= r_inner * r_inner <= 4611686018427387904) by (nonlinear_arith)
                        requires 0 < r_inner <= 2147483647;
                }
            }
            if (ri <= 0 || ri * ri <= d2) && d2 <= ro * ro {
                v.push(cur);
                assert(v@[v@.len() - 1] == cur);
            }
            let ghost next = IVec2 { x, y: (y + 1) as i32 };
            assert forall|p: IVec2| in_ring(p, r_inner as int, r_outer as int) && lex_lt(p, next) implies #[trigger] v@.contains(p) by {
                if p == cur {
                    assert(v@[v@.len() - 1] == cur);
                } else {
                    assert(lex_lt(p, IVec2 { x, y }));
                    assert(prev.contains(p));
                    let k = choose|k: int| 0 <= k < prev.len() && prev[k] == p;
                    assert(v@[k] == p);
                }
            }
            y = y + 1;
        }
        assert forall|p: IVec2| in_ring(p, r_inner as int, r_outer as int) && p.x < x + 1 implies #[trigger] v@.contains(p) by {
            lemma_ring_bounds(p, r_inner as int, r_outer as int);
            assert(lex_lt(p, IVec2 { x, y }));
        }
        x = x + 1;
    }
    assert forall|p: IVec2| in_ring(p, r_inner as int, r_outer as int) implies #[trigger] v@.contains(p) by {
        lemma_ring_bounds(p, r_inner as int, r_outer as int);
    }
    v
}

/// The display name of `genus` according to `shapes`, looking from index `i` on:
/// that of the first shape of genus `genus`, or `genus` itself.
pub open spec fn shapes_genus_display_from<F>(shapes: Seq<Shape<F>>, genus: Seq<char>, i: int) -> Seq<char>
    decreases shapes.len() - i,
{
    if i < 0 || i >= shapes.len() {
        genus
    } else if shapes[i].genus@ == genus {
        shapes[i].genus_display@
    } else {
        shapes_genus_display_from(shapes, genus, i + 1)
    }
}

/// A catalogue of shapes.
#[derive(Debug)]
pub struct Shapes<F>(pub Vec<Shape<F>>);

impl<F> Default for Shapes<F> {
    fn default() -> (r: Self)
        ensures
            r.0@ == Seq::<Shape<F>>::empty(),
    {
        Shapes(Vec::new())
    }
}

impl<F> Shapes<F> {
    /// Appends a shape to the catalogue.
    pub fn add(&mut self, shape: Shape<F>)
        ensures
            final(self).0@ == old(self).0@.push(shape),
    {
        self.0.push(shape);
    }

    /// The display name of `genus`: that of the first shape of this genus, or
    /// `genus` itself when no shape has it.
    pub fn genus_display(&self, genus: &str) -> (r: String)
        ensures
            r@ == shapes_genus_display_from(self.0@, genus@, 0),
    {
        let n = self.0.len();
        let mut i: usize = 0;
        while i < n
            invariant
                n == self.0@.len(),
                i <= n,
                shapes_genus_display_from(self.0@, genus@, 0) == shapes_genus_display_from(self.0@, genus@, i as int),
            decreases n - i,
        {
            if str_eq(self.0[i].genus.as_str(), genus) {
                return self.0[i].genus_display.clone();
            }
            i = i + 1;
        }
        genus.to_owned()
    }
}


/// Lexicographic order on character sequences. Since UTF-8 preserves the order
/// of code points, this is the order of `String` and `str`.
pub open spec fn chars_lt(a: Seq<char>, b: Seq<char>) -> bool
    decreases a.len(),
{
    if a.len() == 0 {
        b.len() > 0
    } else if b.len() == 0 {
        false
    } else if a[0] != b[0] {
        a[0] < b[0]
    } else {
        chars_lt(a.drop_first(), b.drop_first())
    }
}

proof fn lemma_chars_lt_irreflexive(a: Seq<char>)
    ensures
        !chars_lt(a, a),
    decreases a.len(),
{
    if a.len() > 0 {
        lemma_chars_lt_irreflexive(a.drop_first());
    }
}

proof fn lemma_chars_lt_total(a: Seq<char>, b: Seq<char>)
    ensures
        a != b ==> chars_lt(a, b) || chars_lt(b, a),
        !(chars_lt(a, b) && chars_lt(b, a)),
    decreases a.len(),
{
    if a.len() > 0 && b.len() > 0 {
        lemma_chars_lt_total(a.drop_first(), b.drop_first());
        if a[0] == b[0] && a != b {
            assert(a.drop_first() != b.drop_first()) by {
                if a.drop_first() == b.drop_first() {
                    assert(a =~= seq![a[0]] + a.drop_first());
                    assert(b =~= seq![b[0]] + b.drop_first());
                }
            }
        }
    } else if a.len() == 0 && b.len() == 0 {
        assert(a =~= b);
    }
}

proof fn lemma_chars_lt_trans(a: Seq<char>, b: Seq<char>, c: Seq<char>)
    requires
        chars_lt(a, b),
        chars_lt(b, c),
    ensures
        chars_lt(a, c),
    decreases a.len(),
{
    if a.len() > 0 && b.len() > 0 && c.len() > 0 && a[0] == b[0] && b[0] == c[0] {
        lemma_chars_lt_trans(a.drop_first(), b.drop_first(), c.drop_first());
    }
}

/// Whether `a` orders strictly before `b`, as strings compare.
pub fn chars_less(a: &Vec<char>, b: &Vec<char>) -> (r: bool)
    ensures
        r == chars_lt(a@, b@),
{
    let mut i: usize = 0;
    assert(a@.skip(0) =~= a@ && b@.skip(0) =~= b@);
    while i < a.len() && i < b.len() && a[i] == b[i]
        invariant
            i <= a@.len(),
            i <= b@.len(),
            chars_lt(a@, b@) == chars_lt(a@.skip(i as int), b@.skip(i as int)),
        decreases a@.len() - i,
    {
        proof {
            let sa = a@.skip(i as int);
            let sb = b@.skip(i as int);
            assert(sa.drop_first() =~= a@.skip(i + 1));
            assert(sb.drop_first() =~= b@.skip(i + 1));
            assert(sa[0] == a@[i as int] && sb[0] == b@[i as int]);
        }
        i = i + 1;
    }
    proof {
        let sa = a@.skip(i as int);
        let sb = b@.skip(i as int);
        if i < a@.len() {
            assert(sa[0] == a@[i as int]);
        }
        if i < b@.len() {
            assert(sb[0] == b@[i as int]);
        }
    }
    if i < a.len() && i < b.len() {
        a[i] < b[i]
    } else {
        i == a.len() && i < b.len()
    }
}

/// The key by which shapes are grouped: their category, or their genus.
pub open spec fn shape_key<F>(shape: Shape<F>, by_category: bool) -> Seq<char> {
    if by_category { shape.category@ } else { shape.genus@ }
}

/// Whether `groups` partitions the shapes listed in `members` by key: one group
/// per key, groups in increasing key order, each listing, in increasing order,
/// exactly the members of its key.
pub open spec fn grouped<F>(
    shapes: Seq<Shape<F>>,
    members: Seq<usize>,
    by_category: bool,
    groups: Seq<(String, Vec<usize>)>,
) -> bool {
    &&& forall|g: int, h: int| #![trigger groups[g], groups[h]] 0 <= g < h < groups.len()
        ==> chars_lt(groups[g].0@, groups[h].0@)
    &&& forall|g: int| 0 <= g < groups.len() ==> (#[trigger] groups[g]).1@.len() > 0
    &&& forall|g: int, a: int| 0 <= g < groups.len() && 0 <= a < groups[g].1@.len()
        ==> members.contains(#[trigger] groups[g].1@[a]) && groups[g].1@[a] < shapes.len()
            && shape_key(shapes[groups[g].1@[a] as int], by_category) == groups[g].0@
    &&& forall|g: int, a: int, b: int| 0 <= g < groups.len() && 0 <= a < b < groups[g].1@.len()
        ==> #[trigger] groups[g].1@[a] < #[trigger] groups[g].1@[b]
    &&& forall|m: int| 0 <= m < members.len() ==> exists|g: int| 0 <= g < groups.len()
        && #[trigger] groups[g].0@ == shape_key(shapes[members[m] as int], by_category)
        && groups[g].1@.contains(#[trigger] members[m])
}

fn shape_key_exec<F>(shape: &Shape<F>, by_category: bool) -> (r: &String)
    ensures
        r@ == shape_key(*shape, by_category),
{
    if by_category { &shape.category } else { &shape.genus }
}

/// Groups the shapes listed in `members` (in increasing order) by key.
#[verifier::spinoff_prover]
#[verifier::rlimit(40)]
fn group_members<F>(shapes: &Vec<Shape<F>>, members: &Vec<usize>, by_category: bool) -> (r: Vec<(String, Vec<usize>)>)
    requires
        forall|a: int| 0 <= a < members@.len() ==> #[trigger] members@[a] < shapes@.len(),
        forall|a: int, b: int| 0 <= a < b < members@.len() ==> #[trigger] members@[a] < #[trigger] members@[b],
    ensures
        grouped(shapes@, members@, by_category, r@),
{
    let mut groups: Vec<(String, Vec<usize>)> = Vec::new();
    let mut keys: Vec<Vec<char>> = Vec::new();
    let nm = members.len();
    let mut t: usize = 0;
    while t < nm
        invariant
            nm == members@.len(),
            t <= nm,
            forall|a: int| 0 <= a < members@.len() ==> #[trigger] members@[a] < shapes@.len(),
            forall|a: int, b: int| 0 <= a < b < members@.len() ==> #[trigger] members@[a] < #[trigger] members@[b],
            keys@.len() == groups@.len(),
            forall|g: int| 0 <= g < groups@.len() ==> (#[trigger] keys@[g])@ == groups@[g].0@,
            grouped(shapes@, members@.take(t as int), by_category, groups@),
            forall|g: int, a: int| 0 <= g < groups@.len() && 0 <= a < groups@[g].1@.len()
                ==> #[trigger] groups@[g].1@[a] < members@[t as int] || t == nm,
        decreases nm - t,
    {
        let m = members[t];
        let key_str = shape_key_exec(&shapes[m], by_category);
        let key = chars_of(key_str.as_str());
        let ng = groups.len();
        let mut p: usize = 0;
        while p < ng && chars_less(&keys[p], &key)
            invariant
                ng == groups@.len() == keys@.len(),
                p <= ng,
                forall|g: int| 0 <= g < p ==> chars_lt((#[trigger] keys@[g])@, key@),
            decreases ng - p,
        {
            p = p + 1;
        }
        let ghost prev = groups@;
        let ghost prev_members = members@.take(t as int);
        let ghost next_members = members@.take(t + 1);
        assert(next_members =~= prev_members.push(m));
        if p < ng && same_chars(&keys[p], &key) {
            let ghost old_list = groups@[p as int].1@;
            let ghost old_entry = groups@[p as int];
            groups[p].1.push(m);
            assert(groups@[p as int].1@ =~= old_list.push(m));
            assert(groups@[p as int].0 == old_entry.0);
            assert(groups@.len() == prev.len());
            assert(forall|g: int| 0 <= g < prev.len() && g != p ==> groups@[g] == prev[g]);
            assert(grouped(shapes@, next_members, by_category, groups@)) by {
                assert forall|g: int, h: int| #![trigger groups@[g], groups@[h]] 0 <= g < h < groups@.len()
                    implies chars_lt(groups@[g].0@, groups@[h].0@) by {
                    assert(chars_lt(prev[g].0@, prev[h].0@));
                }
                assert forall|g: int| 0 <= g < groups@.len() implies (#[trigger] groups@[g]).1@.len() > 0 by {
                    assert(prev[g].1@.len() > 0);
                }
                assert forall|g: int, a: int| 0 <= g < groups@.len() && 0 <= a < groups@[g].1@.len()
                    implies next_members.contains(#[trigger] groups@[g].1@[a]) && groups@[g].1@[a] < shapes@.len()
                    && shape_key(shapes@[groups@[g].1@[a] as int], by_category) == groups@[g].0@ by {
                    if g == p && a == old_list.len() {
                        assert(next_members[t as int] == m);
                    } else {
                        assert(prev[g].1@[a] == groups@[g].1@[a]);
                        assert(prev_members.contains(prev[g].1@[a]));
                        let k = choose|k: int| 0 <= k < prev_members.len() && prev_members[k] == prev[g].1@[a];
                        assert(next_members[k] == prev[g].1@[a]);
                    }
                }
                assert forall|g: int, a: int, b: int| 0 <= g < groups@.len() && 0 <= a < b < groups@[g].1@.len()
                    implies #[trigger] groups@[g].1@[a] < #[trigger] groups@[g].1@[b] by {
                    if g == p && b == old_list.len() {
                        assert(prev[g].1@[a] < members@[t as int]);
                    } else {
                        assert(prev[g].1@[a] == groups@[g].1@[a]);
                        assert(prev[g].1@[b] == groups@[g].1@[b]);
                    }
                }
                assert forall|mm: int| 0 <= mm < next_members.len() implies exists|g: int| 0 <= g < groups@.len()
                    && #[trigger] groups@[g].0@ == shape_key(shapes@[next_members[mm] as int], by_category)
                    && groups@[g].1@.contains(#[trigger] next_members[mm]) by {
                    if mm == t {
                        assert(groups@[p as int].1@[old_list.len() as int] == m);
                        assert(groups@[p as int].0@ == shape_key(shapes@[next_members[mm] as int], by_category));
                    } else {
                        assert(prev_members[mm] == next_members[mm]);
                        let g = choose|g: int| 0 <= g < prev.len()
                            && #[trigger] prev[g].0@ == shape_key(shapes@[prev_members[mm] as int], by_category)
                            && prev[g].1@.contains(prev_members[mm]);
                        let k = choose|k: int| 0 <= k < prev[g].1@.len() && prev[g].1@[k] == prev_members[mm];
                        assert(groups@[g].1@[k] == prev_members[mm]);
                        assert(groups@[g].0@ == prev[g].0@);
                    }
                }
            }
        } else {
            let ghost prev_keys = keys@;
            assert forall|g: int| 0 <= g < p implies chars_lt(#[trigger] prev[g].0@, key@) by {
                assert(prev_keys[g]@ == prev[g].0@);
            }
            proof {
                lemma_chars_lt_irreflexive(key@);
                if p < ng {
                    lemma_chars_lt_total(keys@[p as int]@, key@);
                    assert(keys@[p as int]@ == prev[p as int].0@);
                }
            }
            let mut list: Vec<usize> = Vec::new();
            list.push(m);
            let entry = (key_str.clone(), list);
            assert(entry.1@ =~= seq![m]);
            assert(entry.0@ == key@);
            let ghost e = entry;
            groups.insert(p, entry);
            assert(groups@[p as int] == e);
            keys.insert(p, key);
            assert(groups@ =~= prev.insert(p as int, groups@[p as int]));
            assert(grouped(shapes@, next_members, by_category, groups@)) by {
                assert forall|g: int, h: int| #![trigger groups@[g], groups@[h]] 0 <= g < h < groups@.len()
                    implies chars_lt(groups@[g].0@, groups@[h].0@) by {
                    if g < p && h == p {
                    } else if g < p && h > p {
                        assert(groups@[h] == prev[h - 1]);
                        assert(chars_lt(prev[g].0@, key@));
                        if h - 1 > p {
                            assert(chars_lt(prev[p as int].0@, prev[h - 1].0@));
                            lemma_chars_lt_trans(key@, prev[p as int].0@, prev[h - 1].0@);
                        }
                        lemma_chars_lt_trans(prev[g].0@, key@, prev[h - 1].0@);
                    } else if g == p {
                        assert(groups@[h] == prev[h - 1]);
                        if h - 1 > p {
                            assert(chars_lt(prev[p as int].0@, prev[h - 1].0@));
                            lemma_chars_lt_trans(key@, prev[p as int].0@, prev[h - 1].0@);
                        }
                    } else if g > p {
                        assert(groups@[g] == prev[g - 1]);
                        assert(groups@[h] == prev[h - 1]);
                    } else {
                        assert(groups@[g] == prev[g]);
                        assert(groups@[h] == prev[h]);
                    }
                }
                assert forall|g: int| 0 <= g < groups@.len() implies (#[trigger] groups@[g]).1@.len() > 0 by {
                    if g < p {
                        assert(groups@[g] == prev[g]);
                    } else if g > p {
                        assert(groups@[g] == prev[g - 1]);
                    }
                }
                assert forall|g: int, a: int| 0 <= g < groups@.len() && 0 <= a < groups@[g].1@.len()
                    implies next_members.contains(#[trigger] groups@[g].1@[a]) && groups@[g].1@[a] < shapes@.len()
                    && shape_key(shapes@[groups@[g].1@[a] as int], by_category) == groups@[g].0@ by {
                    if g == p {
                        assert(groups@[g].1@[a] == m);
                        assert(next_members[t as int] == m);
                    } else {
                        let g0 = if g < p { g } else { g - 1 };
                        assert(groups@[g] == prev[g0]);
                        assert(prev_members.contains(prev[g0].1@[a]));
                        let k = choose|k: int| 0 <= k < prev_members.len() && prev_members[k] == prev[g0].1@[a];
                        assert(next_members[k] == prev[g0].1@[a]);
                    }
                }
                assert forall|g: int, a: int, b: int| 0 <= g < groups@.len() && 0 <= a < b < groups@[g].1@.len()
                    implies #[trigger] groups@[g].1@[a] < #[trigger] groups@[g].1@[b] by {
                    if g != p {
                        let g0 = if g < p { g } else { g - 1 };
                        assert(groups@[g] == prev[g0]);
                    }
                }
                assert forall|mm: int| 0 <= mm < next_members.len() implies exists|g: int| 0 <= g < groups@.len()
                    && #[trigger] groups@[g].0@ == shape_key(shapes@[next_members[mm] as int], by_category)
                    && groups@[g].1@.contains(#[trigger] next_members[mm]) by {
                    if mm == t {
                        assert(groups@[p as int].1@[0] == m);
                        assert(groups@[p as int].0@ == shape_key(shapes@[next_members[mm] as int], by_category));
                    } else {
                        assert(prev_members[mm] == next_members[mm]);
                        let g = choose|g: int| 0 <= g < prev.len()
                            && #[trigger] prev[g].0@ == shape_key(shapes@[prev_members[mm] as int], by_category)
                            && prev[g].1@.contains(prev_members[mm]);
                        let g1 = if g < p { g } else { g + 1 };
                        assert(groups@[g1] == prev[g]);
                        let k = choose|k: int| 0 <= k < prev[g].1@.len() && prev[g].1@[k] == prev_members[mm];
                        assert(groups@[g1].1@[k] == prev_members[mm]);
                    }
                }
            }
        }
        assert forall|g: int, a: int| 0 <= g < groups@.len() && 0 <= a < groups@[g].1@.len()
            implies #[trigger] groups@[g].1@[a] < members@[t + 1] || t + 1 == nm by {
            if t + 1 < nm {
                assert(next_members.contains(groups@[g].1@[a]));
                let k = choose|k: int| 0 <= k < next_members.len() && next_members[k] == groups@[g].1@[a];
                assert(members@[k] < members@[t + 1]);
            }
        }
        t = t + 1;
    }
    assert(members@.take(nm as int) =~= members@);
    groups
}

impl<F> Shapes<F> {
    /// The shapes grouped by genus: one group per genus, in increasing order of
    /// genus, each listing the indices of its shapes in increasing order.
    pub fn by_genus(&self) -> (r: Vec<(String, Vec<usize>)>)
        ensures
            grouped(self.0@, index_range(self.0@.len()), false, r@),
    {
        let members = all_indices(self.0.len());
        group_members(&self.0, &members, false)
    }

    /// The shapes grouped by category, then each category by genus; groups come
    /// in increasing key order and list shape indices in increasing order.
    pub fn by_category_and_genus(&self) -> (r: Vec<(String, Vec<(String, Vec<usize>)>)>)
        ensures
            ({
                &&& forall|g: int| 0 <= g < r@.len() ==> (#[trigger] r@[g]).1@.len() > 0
                &&& exists|outer: Seq<(String, Vec<usize>)>| {
                    &&& #[trigger] grouped(self.0@, index_range(self.0@.len()), true, outer)
                    &&& outer.len() == r@.len()
                    &&& forall|g: int| 0 <= g < r@.len() ==> (#[trigger] r@[g]).0 == outer[g].0
                        && grouped(self.0@, outer[g].1@, false, r@[g].1@)
                }
            }),
    {
        let members = all_indices(self.0.len());
        let cats = group_members(&self.0, &members, true);
        let mut r: Vec<(String, Vec<(String, Vec<usize>)>)> = Vec::new();
        let nc = cats.len();
        let mut g: usize = 0;
        while g < nc
            invariant
                nc == cats@.len(),
                g <= nc,
                grouped(self.0@, members@, true, cats@),
                members@ == index_range(self.0@.len()),
                r@.len() == g,
                forall|h: int| 0 <= h < g ==> (#[trigger] r@[h]).0 == cats@[h].0
                    && grouped(self.0@, cats@[h].1@, false, r@[h].1@),
            decreases nc - g,
        {
            let list = &cats[g].1;
            assert forall|a: int, b: int| 0 <= a < b < list@.len() implies #[trigger] list@[a] < #[trigger] list@[b] by {
                assert(cats@[g as int].1@[a] < cats@[g as int].1@[b]);
            }
            assert forall|a: int| 0 <= a < list@.len() implies #[trigger] list@[a] < self.0@.len() by {
                assert(cats@[g as int].1@[a] < self.0@.len());
            }
            let genera = group_members(&self.0, list, false);
            r.push((cats[g].0.clone(), genera));
            g = g + 1;
        }
        assert forall|h: int| 0 <= h < r@.len() implies (#[trigger] r@[h]).1@.len() > 0 by {
            assert(cats@[h].1@.len() > 0);
            let m0 = cats@[h].1@[0];
            assert(cats@[h].1@.contains(m0));
        }
        r
    }
}

/// The indices `0..n` in increasing order.
pub open spec fn index_range(n: nat) -> Seq<usize> {
    Seq::new(n, |i: int| i as usize)
}

/// The indices `0..n` in increasing order.
fn all_indices(n: usize) -> (r: Vec<usize>)
    ensures
        r@ == index_range(n as nat),
{
    let mut r: Vec<usize> = Vec::new();
    let mut i: usize = 0;
    while i < n
        invariant
            i <= n,
            r@ == Seq::new(i as nat, |j: int| j as usize),
        decreases n - i,
    {
        r.push(i);
        assert(r@ =~= Seq::new((i + 1) as nat, |j: int| j as usize));
        i = i + 1;
    }
    r
}

} // verus!
