use vstd::prelude::*;

verus! {

/// Relies on rand::random: a value drawn from the thread-local generator. Nothing is
/// promised of it.
pub assume_specification<T>[ rand::random::<T> ]() -> (r: T)
    where
        rand::distributions::Standard: rand::distributions::Distribution<T>,
;

/// The position that the random player names for two drawn bytes: each taken modulo 9.
pub fn random_position(x: u8, y: u8) -> (r: (usize, usize))
    ensures
        r.0 == x as usize % 9,
        r.1 == y as usize % 9,
        r.0 < 9 && r.1 < 9,
{
    (x as usize % 9, y as usize % 9)
}

/// The random player: a position on the 9x9 board drawn without regard to the state,
/// which the turn-taking step may refuse.
pub fn random_play() -> (r: Option<(usize, usize)>)
    ensures
        r matches Some((x, y)) && x < 9 && y < 9,
{
    let x: u8 = rand::random::<u8>();
    let y: u8 = rand::random::<u8>();
    Some(random_position(x, y))
}

} // verus!
