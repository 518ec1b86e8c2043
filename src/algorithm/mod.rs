pub mod linked_list;
pub mod queue;
pub mod queue2;
pub mod stack;
