use vstd::prelude::*;

verus! {

/// A health pool: current hit points, their maximum, and temporary hit
/// points that absorb damage before the main pool.
#[derive(Debug, Clone, Copy, PartialEq, Eq, Hash, Structural)]
pub struct Health {
    pub hp: u64,
    pub max_hp: u64,
    pub temp_hp: u64,
}

impl Health {
    /// The pool after taking `amount` damage: temporary hit points absorb
    /// first, the remainder drains the main pool, floored at zero.
    pub open spec fn damaged_spec(self, amount: u64) -> Health {
        let absorbed: int = if self.temp_hp >= amount {
            amount as int
        } else {
            self.temp_hp as int
        };
        let through: int = amount - absorbed;
        Health {
            hp: if self.hp >= through {
                (self.hp - through) as u64
            } else {
                0
            },
            max_hp: self.max_hp,
            temp_hp: (self.temp_hp - absorbed) as u64,
        }
    }

    /// The pool after healing: the main pool grows, clamped at its maximum.
    pub open spec fn healed_spec(self, amount: u64) -> Health {
        Health {
            hp: if self.hp + amount > self.max_hp {
                self.max_hp
            } else {
                (self.hp + amount) as u64
            },
            max_hp: self.max_hp,
            temp_hp: self.temp_hp,
        }
    }

    /// The pool after a grant of temporary hit points: grants do not stack,
    /// the larger of the old and new amount stands.
    pub open spec fn with_temp_hp_spec(self, amount: u64) -> Health {
        Health {
            hp: self.hp,
            max_hp: self.max_hp,
            temp_hp: if self.temp_hp >= amount {
                self.temp_hp
            } else {
                amount
            },
        }
    }

    pub open spec fn is_down_spec(self) -> bool {
        self.hp == 0 && self.temp_hp == 0
    }

    pub fn take_damage(&mut self, amount: u64)
        ensures
            *final(self) == old(self).damaged_spec(amount),
    {
        let mut through = amount;
        if self.temp_hp > 0 {
            if through > self.temp_hp {
                through = through - self.temp_hp;
                self.temp_hp = 0;
            } else {
                self.temp_hp = self.temp_hp - through;
                return ;
            }
        }
        self.hp = if self.hp >= through {
            self.hp - through
        } else {
            0
        };
    }

    pub fn take_healing(&mut self, amount: u64)
        ensures
            *final(self) == old(self).healed_spec(amount),
    {
        self.hp = if self.hp >= self.max_hp {
            self.max_hp
        } else if amount >= self.max_hp - self.hp {
            self.max_hp
        } else {
            self.hp + amount
        };
    }

    pub fn take_temp_hp(&mut self, amount: u64)
        ensures
            *final(self) == old(self).with_temp_hp_spec(amount),
    {
        if amount > self.temp_hp {
            self.temp_hp = amount;
        }
    }

    pub fn damaged(&self, amount: u64) -> (r: Health)
        ensures
            r == self.damaged_spec(amount),
    {
        let mut res = *self;
        res.take_damage(amount);
        res
    }

    pub fn healed(&self, amount: u64) -> (r: Health)
        ensures
            r == self.healed_spec(amount),
    {
        let mut res = *self;
        res.take_healing(amount);
        res
    }

    pub fn with_temp_hp(&self, amount: u64) -> (r: Health)
        ensures
            r == self.with_temp_hp_spec(amount),
    {
        let mut res = *self;
        res.take_temp_hp(amount);
        res
    }

    /// Down means both pools are empty at once.
    pub fn is_down(&self) -> (r: bool)
        ensures
            r == self.is_down_spec(),
    {
        self.hp == 0 && self.temp_hp == 0
    }
}

} // verus!
