pub mod bet;
pub mod dgeplayer;
pub mod player;
pub mod randroll;
pub mod roll;
pub mod rollcounts;
pub mod rolliter;
pub mod table;
