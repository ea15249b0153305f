//! A small world to try the component store with: one entity that carries
//! one counter.

use crate::engine::ecs::vecs::{Component, Type, World};
use crate::decimal::{decimal, decimal_of, lemma_digits_denote, MINUS, ZERO};
use vstd::prelude::*;
use vstd::string::StringExecFns;

verus! {

/// A component that counts the updates it has seen.
#[derive(Copy, Clone, Debug, PartialEq, Eq, Structural)]
pub struct SomeComponent {
    pub count: i32,
}

/// The characters that a run of ASCII codes stands for.
pub open spec fn text_of(codes: Seq<u8>) -> Seq<char> {
    codes.map_values(|code: u8| code as char)
}

/// A count after one more update; it stops at the largest value.
pub open spec fn next_count(count: i32) -> i32 {
    if count < i32::MAX {
        (count + 1) as i32
    } else {
        count
    }
}

/// The text of one character of a decimal number.
fn character(code: u8) -> (text: &'static str)
    requires
        code == MINUS || ZERO <= code <= ZERO + 9,
    ensures
        text@ == seq![code as char],
{
    proof {
        reveal_strlit("-");
        reveal_strlit("0");
        reveal_strlit("1");
        reveal_strlit("2");
        reveal_strlit("3");
        reveal_strlit("4");
        reveal_strlit("5");
        reveal_strlit("6");
        reveal_strlit("7");
        reveal_strlit("8");
        reveal_strlit("9");
    }
    let text = if code == MINUS {
        "-"
    } else if code == ZERO {
        "0"
    } else if code == ZERO + 1 {
        "1"
    } else if code == ZERO + 2 {
        "2"
    } else if code == ZERO + 3 {
        "3"
    } else if code == ZERO + 4 {
        "4"
    } else if code == ZERO + 5 {
        "5"
    } else if code == ZERO + 6 {
        "6"
    } else if code == ZERO + 7 {
        "7"
    } else if code == ZERO + 8 {
        "8"
    } else {
        "9"
    };
    assert(text@ =~= seq![code as char]);
    text
}

/// A number in decimal, as text.
pub fn decimal_text(n: i32) -> (text: String)
    ensures
        text@ == text_of(decimal_of(n as int)),
{
    let codes = decimal(n);
    proof {
        if n < 0 {
            lemma_digits_denote((-n) as nat);
        } else {
            lemma_digits_denote(n as nat);
        }
    }
    let mut text = String::from_str("");
    proof {
        reveal_strlit("");
    }
    let mut i: usize = 0;
    assert(text@ =~= text_of(codes@.take(0)));
    while i < codes.len()
        invariant
            i <= codes@.len(),
            text@ == text_of(codes@.take(i as int)),
            forall|k: int|
                0 <= k < codes@.len() ==> (#[trigger] codes@[k]) == MINUS || ZERO <= codes@[k] <= ZERO
                    + 9,
        decreases codes@.len() - i,
    {
        let ghost before = text@;
        text.append(character(codes[i]));
        assert(text@ =~= text_of(codes@.take(i as int + 1))) by {
            assert(codes@.take(i as int + 1) =~= codes@.take(i as int).push(codes@[i as int]));
        }
        i += 1;
    }
    assert(codes@.take(codes@.len() as int) =~= codes@);
    text
}

impl Component for SomeComponent {
    open spec fn data(&self) -> Seq<char> {
        text_of(decimal_of(self.count as int))
    }

    open spec fn data_after(&self, input: u32) -> Seq<char> {
        text_of(decimal_of(next_count(self.count) as int))
    }

    open spec fn name(&self) -> Seq<char> {
        "SomeComponent"@
    }

    open spec fn kind(&self) -> Type {
        Type::Default
    }

    fn update(&mut self, input: u32) {
        if self.count < i32::MAX {
            self.count += 1;
        }
    }

    fn print(&self) -> (text: String) {
        decimal_text(self.count)
    }

    fn component_name(&self) -> (name: String) {
        String::from_str("SomeComponent")
    }

    fn ctype(&self) -> (kind: Type) {
        Type::default()
    }
}

/// Builds the example world: one entity with one counter, updated once.
pub fn lol() -> (world: World<SomeComponent>)
    ensures
        world.entity_manager@ == seq![crate::engine::ecs::vecs::Entity(0)],
        world.component_manager@.dom() == set![0u32],
        world.component_manager@[0]@.len() == 1,
        world.component_manager@[0]@[0].data() == text_of(decimal_of(1)),
        world.component_manager@[0]@[0].kind() == Type::Default,
{
    let mut world: World<SomeComponent> = World::new();
    let ent1 = world.add_entity();
    assert(world.entity_manager@ =~= seq![crate::engine::ecs::vecs::Entity(0)]);
    let component = SomeComponent { count: 0 };
    world.add_component(ent1, component);
    assert(world.component_manager@.dom() =~= set![0u32]);
    world.update(0);
    world
}

} // verus!
