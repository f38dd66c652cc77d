//! The bridge between an HTTP/2 session and the tunnel's pipe, in both directions.

use vstd::prelude::*;

verus! {

/// Size of the bridge's buffer: that of one full padding frame.
pub const BRIDGE_BUF: usize = 65536;

/// What came of reading one side.
#[derive(Debug, Clone, Copy, PartialEq, Eq, Structural)]
pub enum BridgeRead {
    /// Bytes.
    Data,
    /// The end.
    End,
    /// An error.
    Failed,
}

/// What the bridge does with it.
#[derive(Debug, Clone, Copy, PartialEq, Eq, Structural)]
pub enum BridgeAction {
    /// Pass the bytes on, and report whether that worked.
    Forward,
    /// Pass the end on: nothing more is read from that side.
    Finish,
}

/// What has ended: the upload, from the session to the pipe, and the download, back.
#[derive(Debug, Clone, Copy, PartialEq, Eq, Structural)]
pub struct SessionBridge {
    pub up_eof: bool,
    pub down_eof: bool,
}

/// What reading one side of a bridge comes to: whether that direction has ended, and what is done.
pub open spec fn bridge_read(ended: bool, read: BridgeRead) -> (bool, BridgeAction) {
    match read {
        BridgeRead::Data => (ended, BridgeAction::Forward),
        BridgeRead::End => (true, BridgeAction::Finish),
        BridgeRead::Failed => (true, BridgeAction::Finish),
    }
}

/// Bytes are passed on and end nothing; an end and an error are passed on as the end, and nothing
/// opens a direction again that has ended.
pub proof fn law_bridges_pass_ends_on(ended: bool, read: BridgeRead)
    ensures
        bridge_read(ended, read).1 == BridgeAction::Forward <==> read == BridgeRead::Data,
        bridge_read(ended, read).0 <==> ended || read != BridgeRead::Data,
{
}

impl SessionBridge {
    /// A bridge with both directions open.
    pub fn new() -> (r: Self)
        ensures
            r == (SessionBridge { up_eof: false, down_eof: false }),
    {
        SessionBridge { up_eof: false, down_eof: false }
    }

    /// Whether both directions have ended.
    pub fn finished(&self) -> (r: bool)
        ensures
            r == (self.up_eof && self.down_eof),
    {
        self.up_eof && self.down_eof
    }

    /// Takes what was read from the session. Its end and its error are both passed on as the
    /// end.
    pub fn on_upload(&mut self, read: BridgeRead) -> (r: BridgeAction)
        ensures
            (final(self).up_eof, r) == bridge_read(old(self).up_eof, read),
            final(self).down_eof == old(self).down_eof,
            if read == BridgeRead::Data {
                r == BridgeAction::Forward && final(self).up_eof == old(self).up_eof
            } else {
                r == BridgeAction::Finish && final(self).up_eof
            },
    {
        match read {
            BridgeRead::Data => BridgeAction::Forward,
            BridgeRead::End => {
                self.up_eof = true;
                BridgeAction::Finish
            },
            BridgeRead::Failed => {
                self.up_eof = true;
                BridgeAction::Finish
            },
        }
    }

    /// Takes whether the upload's bytes could be passed on; if not, the upload has ended.
    pub fn on_upload_forwarded(&mut self, ok: bool)
        ensures
            final(self).down_eof == old(self).down_eof,
            final(self).up_eof == (old(self).up_eof || !ok),
    {
        if !ok {
            self.up_eof = true;
        }
    }

    /// Takes what was read from the pipe. Its end and its error are both passed on as the end.
    pub fn on_download(&mut self, read: BridgeRead) -> (r: BridgeAction)
        ensures
            (final(self).down_eof, r) == bridge_read(old(self).down_eof, read),
            final(self).up_eof == old(self).up_eof,
            if read == BridgeRead::Data {
                r == BridgeAction::Forward && final(self).down_eof == old(self).down_eof
            } else {
                r == BridgeAction::Finish && final(self).down_eof
            },
    {
        match read {
            BridgeRead::Data => BridgeAction::Forward,
            BridgeRead::End => {
                self.down_eof = true;
                BridgeAction::Finish
            },
            BridgeRead::Failed => {
                self.down_eof = true;
                BridgeAction::Finish
            },
        }
    }

    /// Takes whether the download's bytes could be passed on; if not, the download has ended.
    pub fn on_download_forwarded(&mut self, ok: bool)
        ensures
            final(self).up_eof == old(self).up_eof,
            final(self).down_eof == (old(self).down_eof || !ok),
    {
        if !ok {
            self.down_eof = true;
        }
    }
}

} // verus!
