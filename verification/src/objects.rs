//! Entities placed into a level: the player, monsters, items, and the exit.

use vstd::prelude::*;

use crate::grid::{in_bounds, Grid};
use crate::tiles::Color;
use vstd::string::StringExecFns;

verus! {

/// Combat payload carried by the player and by monsters; its resolution is
/// owned by the combat system, generation only fills it in.
#[derive(Clone, Copy, Debug, PartialEq, Eq, Structural)]
pub struct Fighter {
    pub exp: i32,
    pub max_hp: i32,
    pub hp: i32,
    pub defense: i32,
    pub power: i32,
    pub on_death: DeathCallback,
}

/// Which death effect fires when a fighter's hit points run out.
#[derive(Clone, Copy, Debug, PartialEq, Eq, Structural)]
pub enum DeathCallback {
    Player,
    Monster,
}

/// Monster turn behavior.
#[derive(Debug)]
pub enum Ai {
    Basic,
    Confused { previous_ai: Box<Ai>, num_turns: i32 },
}

/// The kinds of usable item.
#[derive(Clone, Copy, Debug, PartialEq, Eq, Structural)]
pub enum Item {
    Heal,
    LightningBoltScroll,
    ConfusionScroll,
    FireballScroll,
    FearScroll,
    HpUp,
    PowUp,
    DefUp,
}

/// Anything that occupies a tile: monsters, items, the exit, the player.
#[derive(Debug)]
pub struct Object {
    pub x: i32,
    pub y: i32,
    pub char: char,
    pub color: Color,
    pub name: String,
    pub blocks: bool,
    pub alive: bool,
    pub corpse_type: String,
    pub fighter: Option<Fighter>,
    pub ai: Option<Ai>,
    pub item: Option<Item>,
    pub level: i32,
    pub always_visible: bool,
}

/// A creature: an object plus an inventory (only the player carries one).
#[derive(Debug)]
pub struct Character {
    pub object: Object,
    pub inventory: Option<Vec<Object>>,
}

/// A character at `(x, y)` that blocks movement.
pub open spec fn blocking_character_at(chars: Seq<Character>, x: int, y: int) -> bool {
    exists|k: int|
        0 <= k < chars.len() && (#[trigger] chars[k]).object.blocks && chars[k].object.x == x
            && chars[k].object.y == y
}

impl Object {
    /// This object's position on the grid.
    pub open spec fn spec_pos(&self) -> (int, int) {
        (self.x as int, self.y as int)
    }

    /// Returns the x/y coordinates of the object.
    pub fn pos(&self) -> (p: (i32, i32))
        ensures
            p.0 == self.x,
            p.1 == self.y,
    {
        (self.x, self.y)
    }

    /// Sets the x/y coordinates of the object.
    pub fn set_pos(&mut self, x: i32, y: i32)
        ensures
            final(self).x == x,
            final(self).y == y,
            final(self).char == old(self).char,
            final(self).color == old(self).color,
            final(self).name == old(self).name,
            final(self).blocks == old(self).blocks,
            final(self).alive == old(self).alive,
            final(self).corpse_type == old(self).corpse_type,
            final(self).fighter == old(self).fighter,
            final(self).item == old(self).item,
            final(self).level == old(self).level,
            final(self).always_visible == old(self).always_visible,
    {
        self.x = x;
        self.y = y;
    }

    /// Whether `(x, y)` cannot be stepped onto or spawned into: the tile
    /// blocks movement, or a blocking character already stands there.
    pub fn is_blocked(x: i32, y: i32, map: &Grid, objects: &Vec<Character>) -> (r: bool)
        requires
            map.wf(),
            in_bounds(x as int, y as int),
        ensures
            r == (map.at(x as int, y as int).blocked || blocking_character_at(
                objects@,
                x as int,
                y as int,
            )),
    {
        // First test the map tile.
        if map.get(x as usize, y as usize).blocked {
            return true;
        }
        // Then check for any blocking characters.
        let mut k: usize = 0;
        while k < objects.len()
            invariant
                k <= objects@.len(),
                forall|m: int|
                    0 <= m < k ==> !((#[trigger] objects@[m]).object.blocks && objects@[m].object.x
                        == x && objects@[m].object.y == y),
            decreases objects@.len() - k,
        {
            if objects[k].object.blocks && objects[k].object.x == x && objects[k].object.y == y {
                return true;
            }
            k = k + 1;
        }
        false
    }

    /// Restores hit points, capped at the fighter's maximum; an object
    /// without a fighter is unchanged.
    pub fn heal(&mut self, amount: i32)
        requires
            0 <= amount,
            old(self).fighter is Some ==> old(self).fighter->Some_0.hp + amount <= i32::MAX,
        ensures
            old(self).fighter is None ==> final(self).fighter == old(self).fighter,
            old(self).fighter is Some ==> {
                let f = old(self).fighter->Some_0;
                let healed = if f.hp + amount <= f.max_hp {
                    f.hp + amount
                } else {
                    f.max_hp as int
                };
                final(self).fighter == Some(Fighter { hp: healed as i32, ..f })
            },
            final(self).x == old(self).x,
            final(self).y == old(self).y,
            final(self).name == old(self).name,
    {
        match &mut self.fighter {
            Some(fighter) => {
                fighter.hp = fighter.hp + amount;
                if fighter.hp > fighter.max_hp {
                    fighter.hp = fighter.max_hp;
                }
            },
            None => {},
        }
    }

    /// Creates the player character: full health, blocking, alive.
    pub fn new_player() -> (c: Character)
        ensures
            c.object.x == 0 && c.object.y == 0,
            c.object.blocks,
            c.object.alive,
            c.object.fighter is Some,
            c.object.item is None,
            c.inventory is Some,
    {
        Character {
            object: Object {
                x: 0,
                y: 0,
                char: '@',
                color: Color { r: 255, g: 255, b: 255 },
                name: String::from_str("Player"),
                blocks: true,
                alive: true,
                corpse_type: String::from_str("'s bloody corpse"),
                fighter: Some(
                    Fighter {
                        exp: 0,
                        max_hp: 100,
                        hp: 100,
                        defense: 200,
                        power: 500,
                        on_death: DeathCallback::Player,
                    },
                ),
                ai: None,
                item: None,
                level: 10000,
                always_visible: false,
            },
            inventory: Some(Vec::new()),
        }
    }

    /// Generic item constructor: an unmoving object with no combat payload.
    fn new_item(x: i32, y: i32, char: char, name: &str, color: Color, blocks: bool) -> (o: Object)
        ensures
            o.x == x && o.y == y,
            o.char == char,
            o.color == color,
            o.name@ == name@,
            o.blocks == blocks,
            !o.alive,
            o.fighter is None,
            o.ai is None,
            o.item is None,
            o.always_visible,
    {
        Object {
            x,
            y,
            char,
            color,
            name: name.to_owned(),
            blocks,
            alive: false,
            corpse_type: name.to_owned(),
            fighter: None,
            ai: None,
            item: None,
            level: 1,
            always_visible: true,
        }
    }

    /// Health potion constructor.
    pub fn health_pot(x: i32, y: i32) -> (o: Object)
        ensures
            o.x == x && o.y == y,
            o.item == Some(Item::Heal),
            !o.blocks,
            o.name@ == "Health potion"@,
    {
        let mut o = Object::new_item(
            x,
            y,
            '!',
            "Health potion",
            Color { r: 63, g: 255, b: 63 },
            false,
        );
        o.item = Some(Item::Heal);
        o
    }

    /// Lightning bolt scroll constructor.
    pub fn lightning_bolt_scroll(x: i32, y: i32) -> (o: Object)
        ensures
            o.x == x && o.y == y,
            o.item == Some(Item::LightningBoltScroll),
            !o.blocks,
            o.name@ == "Scroll of lightning bolt"@,
    {
        let mut o = Object::new_item(
            x,
            y,
            '#',
            "Scroll of lightning bolt",
            Color { r: 255, g: 255, b: 63 },
            false,
        );
        o.item = Some(Item::LightningBoltScroll);
        o
    }

    /// Confusion scroll constructor.
    pub fn confusion_scroll(x: i32, y: i32) -> (o: Object)
        ensures
            o.x == x && o.y == y,
            o.item == Some(Item::ConfusionScroll),
            !o.blocks,
            o.name@ == "Scroll of confusion"@,
    {
        let mut o = Object::new_item(
            x,
            y,
            '#',
            "Scroll of confusion",
            Color { r: 159, g: 63, b: 255 },
            false,
        );
        o.item = Some(Item::ConfusionScroll);
        o
    }

    /// Fireball scroll constructor.
    pub fn fireball_scroll(x: i32, y: i32) -> (o: Object)
        ensures
            o.x == x && o.y == y,
            o.item == Some(Item::FireballScroll),
            !o.blocks,
            o.name@ == "Scroll of Fireball"@,
    {
        let mut o = Object::new_item(
            x,
            y,
            '#',
            "Scroll of Fireball",
            Color { r: 255, g: 63, b: 0 },
            false,
        );
        o.item = Some(Item::FireballScroll);
        o
    }

    /// Fear scroll constructor.
    pub fn fear_scroll(x: i32, y: i32) -> (o: Object)
        ensures
            o.x == x && o.y == y,
            o.item == Some(Item::FearScroll),
            !o.blocks,
            o.name@ == "Scroll of Fear"@,
    {
        let mut o = Object::new_item(
            x,
            y,
            '#',
            "Scroll of Fear",
            Color { r: 63, g: 0, b: 127 },
            false,
        );
        o.item = Some(Item::FearScroll);
        o
    }

    /// Permanent health upgrade constructor.
    pub fn health_up(x: i32, y: i32) -> (o: Object)
        ensures
            o.x == x && o.y == y,
            o.item == Some(Item::HpUp),
            !o.blocks,
            o.name@ == "Kale"@,
    {
        let mut o = Object::new_item(x, y, '/', "Kale", Color { r: 223, g: 255, b: 127 }, false);
        o.item = Some(Item::HpUp);
        o
    }

    /// Permanent power upgrade constructor.
    pub fn power_up(x: i32, y: i32) -> (o: Object)
        ensures
            o.x == x && o.y == y,
            o.item == Some(Item::PowUp),
            !o.blocks,
            o.name@ == "Creatine Powder"@,
    {
        let mut o = Object::new_item(
            x,
            y,
            '+',
            "Creatine Powder",
            Color { r: 255, g: 115, b: 143 },
            false,
        );
        o.item = Some(Item::PowUp);
        o
    }

    /// Permanent defense upgrade constructor.
    pub fn defense_up(x: i32, y: i32) -> (o: Object)
        ensures
            o.x == x && o.y == y,
            o.item == Some(Item::DefUp),
            !o.blocks,
            o.name@ == "Quinoa"@,
    {
        let mut o = Object::new_item(x, y, '~', "Quinoa", Color { r: 127, g: 0, b: 255 }, false);
        o.item = Some(Item::DefUp);
        o
    }

    /// Creates a new, empty, generic enemy.
    pub fn new_enemy(x: i32, y: i32, char: char, color: Color, name: &str, blocks: bool, corpse_type: &str) -> (c: Character)
        ensures
            c.object.x == x && c.object.y == y,
            c.object.char == char,
            c.object.color == color,
            c.object.name@ == name@,
            c.object.corpse_type@ == corpse_type@,
            c.object.blocks == blocks,
            !c.object.alive,
            c.object.fighter is None,
            c.object.ai is Some,
            c.object.item is None,
            c.inventory is None,
    {
        Character {
            object: Object {
                x,
                y,
                char,
                color,
                name: name.to_owned(),
                blocks,
                alive: false,
                corpse_type: corpse_type.to_owned(),
                fighter: None,
                ai: Some(Ai::Basic),
                item: None,
                level: 1,
                always_visible: false,
            },
            inventory: None,
        }
    }
}

} // verus!
