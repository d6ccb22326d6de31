use vstd::prelude::*;

verus! {

/// One immutable record of a completed activity, broadcast to subscribers
/// and persisted in the command history.
#[derive(Debug, PartialEq, Eq)]
pub struct FeedItem {
    pub item_uuid: String,
    pub timestamp: String,
    pub author_id: String,
    pub author_name: String,
    pub command_name: String,
    pub command_output: String,
    pub test_item: bool,
}

impl Clone for FeedItem {
    fn clone(&self) -> (r: Self)
        ensures
            r == *self,
    {
        FeedItem {
            item_uuid: self.item_uuid.clone(),
            timestamp: self.timestamp.clone(),
            author_id: self.author_id.clone(),
            author_name: self.author_name.clone(),
            command_name: self.command_name.clone(),
            command_output: self.command_output.clone(),
            test_item: self.test_item,
        }
    }
}

impl FeedItem {
    /// Builds the record broadcast for one completed command invocation.
    pub fn new(
        item_uuid: String,
        timestamp: String,
        author_id: String,
        author_name: String,
        command_name: String,
        command_output: String,
        test_item: bool,
    ) -> (r: Self)
        ensures
            r == (FeedItem {
                item_uuid,
                timestamp,
                author_id,
                author_name,
                command_name,
                command_output,
                test_item,
            }),
    {
        FeedItem {
            item_uuid,
            timestamp,
            author_id,
            author_name,
            command_name,
            command_output,
            test_item,
        }
    }
}

} // verus!
