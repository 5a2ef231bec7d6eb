//! Kinds of nodes that the engine itself knows by name.
use vstd::prelude::*;

verus! {

pub const RTSP_SOURCE: &'static str = "rtspSource";

pub const RTSP_DECODER: &'static str = "rtspDecoder";

pub const VIEWER: &'static str = "viewer";

pub const IMAGE_FILE_SOURCE: &'static str = "imageFileSource";

pub const LOCAL_WORKSPACE: &'static str = "localWorkspace";

pub const SFTP_WORKSPACE: &'static str = "sftpWorkspace";

pub const FILE_BROWSER: &'static str = "fileBrowser";

pub const SSH_SESSION: &'static str = "sshSession";

} // verus!
