pub mod case;
